//! The send lock of a channel: the multiplexer sets it, senders ask it.

use crate::external::{wake_channel, wakes};
use crate::message::ChannelSendError;
use futures::channel::oneshot;
use vstd::prelude::*;

verus! {

/// Why a channel is closed for sending.
#[derive(Debug, Clone, Copy, PartialEq, Eq, Structural)]
pub enum ChannelSendLockCloseReason {
    /// The other side closed it.
    Closed { gracefully: bool },
    /// The multiplexer went away.
    Dropped,
}

/// State of a channel send lock.
///
/// The authority of the lock calls `pause`, `resume`, `close` and `dropped`,
/// the requester calls `request`.
pub struct ChannelSendLockState {
    pub send_allowed: bool,
    pub close_reason: Option<ChannelSendLockCloseReason>,
    pub notify_tx: Option<oneshot::Sender<()>>,
}

/// The answer to a request to send.
pub enum SendLockAnswer {
    /// Sending is allowed.
    Allowed,
    /// Nothing will be sent on this channel any more.
    Refused(ChannelSendError),
    /// Sending is paused. Ask again once this resolves.
    Wait(oneshot::Receiver<()>),
}

/// Creates a channel send lock. Sending is allowed at first.
pub fn channel_send_lock() -> (lock: ChannelSendLockState)
    ensures
        lock == ChannelSendLockState::initial(),
{
    ChannelSendLockState { send_allowed: true, close_reason: None, notify_tx: None }
}

impl ChannelSendLockState {
    /// A lock that nobody has touched.
    pub open spec fn initial() -> ChannelSendLockState {
        ChannelSendLockState { send_allowed: true, close_reason: None, notify_tx: None }
    }

    /// The lock once sending has been paused.
    pub open spec fn paused(self) -> ChannelSendLockState {
        ChannelSendLockState { send_allowed: false, ..self }
    }

    /// The lock once sending has been resumed. No requester waits any more.
    pub open spec fn resumed(self) -> ChannelSendLockState {
        ChannelSendLockState { send_allowed: true, notify_tx: None, ..self }
    }

    /// The lock once it has been closed for `reason`. No requester waits any more.
    pub open spec fn shut(self, reason: ChannelSendLockCloseReason) -> ChannelSendLockState {
        ChannelSendLockState { send_allowed: false, close_reason: Some(reason), notify_tx: None }
    }

    /// The lock once its authority is gone.
    pub open spec fn abandoned(self) -> ChannelSendLockState {
        if self.close_reason is None {
            self.shut(ChannelSendLockCloseReason::Dropped)
        } else {
            self
        }
    }

    /// What a requester is told, where it need not wait.
    pub open spec fn verdict(self) -> Option<Result<(), ChannelSendError>> {
        if self.send_allowed {
            Some(Ok(()))
        } else {
            match self.close_reason {
                Some(ChannelSendLockCloseReason::Closed { gracefully }) => Some(
                    Err(ChannelSendError::Closed { gracefully }),
                ),
                Some(ChannelSendLockCloseReason::Dropped) => Some(
                    Err(ChannelSendError::MultiplexerError),
                ),
                None => None,
            }
        }
    }

    /// Pause sending on the channel.
    pub fn pause(&mut self)
        ensures
            *final(self) == old(self).paused(),
    {
        self.send_allowed = false;
    }

    /// Resume sending on the channel, and wake the requester that waits for it.
    pub fn resume(&mut self)
        ensures
            *final(self) == old(self).resumed(),
    {
        self.send_allowed = true;

        if let Some(tx) = self.notify_tx.take() {
            let _ = tx.send(());
        }
    }

    /// Closes the channel, and wakes the requester that waits for it.
    pub fn close(&mut self, gracefully: bool)
        ensures
            *final(self) == old(self).shut(ChannelSendLockCloseReason::Closed { gracefully }),
    {
        self.send_allowed = false;
        self.close_reason = Some(ChannelSendLockCloseReason::Closed { gracefully });

        if let Some(tx) = self.notify_tx.take() {
            let _ = tx.send(());
        }
    }

    /// The authority of this lock is gone. A lock that was closed before stays
    /// as it is.
    pub fn dropped(&mut self)
        ensures
            *final(self) == old(self).abandoned(),
    {
        if self.close_reason.is_none() {
            self.send_allowed = false;
            self.close_reason = Some(ChannelSendLockCloseReason::Dropped);

            if let Some(tx) = self.notify_tx.take() {
                let _ = tx.send(());
            }
        }
    }

    /// Asks whether sending is allowed. Where the answer is to wait, the lock
    /// keeps the other half of what the requester is to await.
    pub fn request(&mut self) -> (answer: SendLockAnswer)
        ensures
            match answer {
                SendLockAnswer::Allowed => {
                    &&& old(self).verdict() == Some(Ok::<(), ChannelSendError>(()))
                    &&& *final(self) == *old(self)
                },
                SendLockAnswer::Refused(error) => {
                    &&& old(self).verdict() == Some(Err::<(), ChannelSendError>(error))
                    &&& *final(self) == *old(self)
                },
                SendLockAnswer::Wait(rx) => {
                    &&& old(self).verdict() is None
                    &&& final(self).notify_tx matches Some(tx) && wakes(tx, rx)
                    &&& *final(self) == (ChannelSendLockState {
                        notify_tx: final(self).notify_tx,
                        ..*old(self)
                    })
                },
            },
    {
        if self.send_allowed {
            return SendLockAnswer::Allowed;
        }
        match self.close_reason {
            Some(ChannelSendLockCloseReason::Closed { gracefully }) => {
                return SendLockAnswer::Refused(ChannelSendError::Closed { gracefully });
            },
            Some(ChannelSendLockCloseReason::Dropped) => {
                return SendLockAnswer::Refused(ChannelSendError::MultiplexerError);
            },
            None => (),
        }

        let (tx, rx) = wake_channel();
        self.notify_tx = Some(tx);
        SendLockAnswer::Wait(rx)
    }
}

/// What the authority of a lock does to it.
pub enum AuthorityStep {
    Pause,
    Resume,
    Close { gracefully: bool },
    Dropped,
}

/// What anybody does to a lock.
pub enum LockStep {
    /// A step of the authority.
    Authority(AuthorityStep),
    /// A requester was told to wait and left this behind.
    Wait(oneshot::Sender<()>),
}

/// The lock after `step`.
pub open spec fn lock_after(lock: ChannelSendLockState, step: LockStep) -> ChannelSendLockState {
    match step {
        LockStep::Authority(AuthorityStep::Pause) => lock.paused(),
        LockStep::Authority(AuthorityStep::Resume) => lock.resumed(),
        LockStep::Authority(AuthorityStep::Close { gracefully }) => lock.shut(
            ChannelSendLockCloseReason::Closed { gracefully },
        ),
        LockStep::Authority(AuthorityStep::Dropped) => lock.abandoned(),
        LockStep::Wait(tx) => ChannelSendLockState { notify_tx: Some(tx), ..lock },
    }
}

/// A new lock after `steps`.
pub open spec fn lock_after_all(steps: Seq<LockStep>) -> ChannelSendLockState
    decreases steps.len(),
{
    if steps.len() == 0 {
        ChannelSendLockState::initial()
    } else {
        lock_after(lock_after_all(steps.drop_last()), steps.last())
    }
}

/// The authority still exists after `steps`, and has not closed the lock.
pub open spec fn authority_alive(steps: Seq<LockStep>) -> bool {
    forall|i: int|
        0 <= i < steps.len() ==> !(#[trigger] steps[i] matches LockStep::Authority(step) && (
        step is Close || step is Dropped))
}

/// The last word of the authority in `steps` was to pause.
pub open spec fn last_was_pause(steps: Seq<LockStep>) -> bool
    decreases steps.len(),
{
    if steps.len() == 0 {
        false
    } else {
        match steps.last() {
            LockStep::Authority(step) => step is Pause,
            LockStep::Wait(_) => last_was_pause(steps.drop_last()),
        }
    }
}

/// While the authority exists and has not closed the lock, a requester is never
/// refused: it is allowed to send, unless the last word was to pause, and then
/// it waits.
pub proof fn law_open_lock_follows_last_word(steps: Seq<LockStep>)
    requires
        authority_alive(steps),
    ensures
        lock_after_all(steps).close_reason is None,
        lock_after_all(steps).verdict() == (if last_was_pause(steps) {
            None
        } else {
            Some(Ok::<(), ChannelSendError>(()))
        }),
    decreases steps.len(),
{
    if steps.len() > 0 {
        let before = steps.drop_last();
        assert forall|i: int| 0 <= i < before.len() implies !(#[trigger] before[i]
            matches LockStep::Authority(step) && (step is Close || step is Dropped)) by {
            assert(before[i] == steps[i]);
        }
        law_open_lock_follows_last_word(before);
        assert(steps[steps.len() - 1] == steps.last());
    }
}

/// Once the authority has closed the lock, every later request is refused with
/// what `close` was given, whatever else happens.
pub proof fn law_closed_lock_refuses(steps: Seq<LockStep>, at: int, gracefully: bool)
    requires
        authority_ends_once(steps),
        0 <= at < steps.len(),
        steps[at] == LockStep::Authority(AuthorityStep::Close { gracefully }),
    ensures
        lock_after_all(steps).close_reason == Some(
            ChannelSendLockCloseReason::Closed { gracefully },
        ),
        lock_after_all(steps).verdict() == Some(
            Err::<(), ChannelSendError>(ChannelSendError::Closed { gracefully }),
        ),
    decreases steps.len(),
{
    if at < steps.len() - 1 {
        let before = steps.drop_last();
        lemma_ends_once_before(steps);
        assert(before[at] == steps[at]);
        law_closed_lock_refuses(before, at, gracefully);
        assert(ends_authority(steps[at]));
        assert(steps[steps.len() - 1] == steps.last());
    }
}

/// Where the authority goes away without having closed the lock, every later
/// request is refused as a failure of the multiplexer.
pub proof fn law_abandoned_lock_refuses(steps: Seq<LockStep>, at: int)
    requires
        authority_ends_once(steps),
        0 <= at < steps.len(),
        authority_alive(steps.take(at)),
        steps[at] == LockStep::Authority(AuthorityStep::Dropped),
    ensures
        lock_after_all(steps).close_reason == Some(ChannelSendLockCloseReason::Dropped),
        lock_after_all(steps).verdict() == Some(
            Err::<(), ChannelSendError>(ChannelSendError::MultiplexerError),
        ),
    decreases steps.len(),
{
    let before = steps.drop_last();
    if at < steps.len() - 1 {
        lemma_ends_once_before(steps);
        assert(before[at] == steps[at]);
        assert(before.take(at) =~= steps.take(at));
        law_abandoned_lock_refuses(before, at);
        assert(ends_authority(steps[at]));
        assert(steps[steps.len() - 1] == steps.last());
    } else {
        assert(steps.take(at) =~= before);
        law_open_lock_follows_last_word(before);
    }
}

/// What holds of the end of the authority held one step earlier.
proof fn lemma_ends_once_before(steps: Seq<LockStep>)
    requires
        authority_ends_once(steps),
        steps.len() > 0,
    ensures
        authority_ends_once(steps.drop_last()),
{
    let before = steps.drop_last();
    assert forall|i: int, j: int|
        0 <= i < j < before.len() && ends_authority(#[trigger] before[i]) implies !(
    #[trigger] before[j] is Authority) || before[j] == LockStep::Authority(
        AuthorityStep::Dropped,
    ) by {
        assert(before[i] == steps[i] && before[j] == steps[j]);
    }
}

/// Nobody is left waiting on a lock that would not make them wait: the steps
/// that give a waiting requester its answer also wake it.
pub proof fn law_answered_lock_has_no_waiter(steps: Seq<LockStep>)
    requires
        waits_only_when_told(steps),
        authority_ends_once(steps),
    ensures
        lock_after_all(steps).verdict() is Some ==> lock_after_all(steps).notify_tx is None,
    decreases steps.len(),
{
    if steps.len() > 0 {
        let before = steps.drop_last();
        assert(waits_only_when_told(before)) by {
            assert forall|i: int| 0 <= i < before.len() && #[trigger] before[i] is Wait implies
                lock_after_all(before.take(i)).verdict() is None by {
                assert(before[i] == steps[i]);
                assert(before.take(i) =~= steps.take(i));
            }
        }
        lemma_ends_once_before(steps);
        law_answered_lock_has_no_waiter(before);
        let n = (steps.len() - 1) as int;
        assert(steps.take(n) =~= before);
        assert(steps[n] == steps.last());
        if steps.last() is Wait {
            assert(lock_after_all(steps.take(n)).verdict() is None);
        }
        if steps.last() == LockStep::Authority(AuthorityStep::Pause) {
            assert(authority_alive(before)) by {
                assert forall|i: int| 0 <= i < before.len() implies !(#[trigger] before[i]
                    matches LockStep::Authority(step) && (step is Close || step is Dropped)) by {
                    assert(before[i] == steps[i]);
                    assert(steps[n] is Authority);
                }
            }
            law_open_lock_follows_last_word(before);
        }
    }
}

/// `step` is the end of the authority: it closes the lock or goes away.
pub open spec fn ends_authority(step: LockStep) -> bool {
    step matches LockStep::Authority(a) && (a is Close || a is Dropped)
}

/// After the authority has closed the lock it can only go away.
pub open spec fn authority_ends_once(steps: Seq<LockStep>) -> bool {
    forall|i: int, j: int|
        0 <= i < j < steps.len() && ends_authority(#[trigger] steps[i]) ==> !(#[trigger] steps[j]
            is Authority) || steps[j] == LockStep::Authority(AuthorityStep::Dropped)
}

/// A requester waits only where it was told to.
pub open spec fn waits_only_when_told(steps: Seq<LockStep>) -> bool {
    forall|i: int|
        0 <= i < steps.len() && #[trigger] steps[i] is Wait ==> lock_after_all(
            steps.take(i),
        ).verdict() is None
}

/// What a requester is told depends on two things alone: it may send exactly if
/// sending is allowed, it waits exactly if sending is paused and the lock is open,
/// and otherwise it is refused for the reason for which the lock was closed.
pub proof fn law_verdict(lock: ChannelSendLockState)
    ensures
        lock.verdict() == Some(Ok::<(), ChannelSendError>(())) <==> lock.send_allowed,
        lock.verdict() is None <==> !lock.send_allowed && lock.close_reason is None,
        forall|gracefully: bool|
            lock.verdict() == Some(
                Err::<(), ChannelSendError>(ChannelSendError::Closed { gracefully }),
            ) <==> !lock.send_allowed && lock.close_reason == Some(
                ChannelSendLockCloseReason::Closed { gracefully },
            ),
        lock.verdict() == Some(Err::<(), ChannelSendError>(ChannelSendError::MultiplexerError))
            <==> !lock.send_allowed && lock.close_reason == Some(
            ChannelSendLockCloseReason::Dropped,
        ),
{
}

/// What the authority does to a lock: pausing forbids to send and leaves a waiting
/// requester waiting; resuming allows it, and closing forbids it for good, and both
/// let go of the waiting requester. The reason of an earlier end stays.
pub proof fn law_authority_steps(lock: ChannelSendLockState, reason: ChannelSendLockCloseReason)
    ensures
        ({
            let new = ChannelSendLockState::initial();
            &&& new.send_allowed && new.close_reason is None && new.notify_tx is None
        }),
        ({
            let paused = lock.paused();
            &&& !paused.send_allowed
            &&& paused.close_reason == lock.close_reason
            &&& paused.notify_tx == lock.notify_tx
        }),
        ({
            let resumed = lock.resumed();
            &&& resumed.send_allowed
            &&& resumed.close_reason == lock.close_reason
            &&& resumed.notify_tx is None
        }),
        ({
            let shut = lock.shut(reason);
            &&& !shut.send_allowed
            &&& shut.close_reason == Some(reason)
            &&& shut.notify_tx is None
        }),
        lock.close_reason is Some ==> lock.abandoned() == lock,
        lock.close_reason is None ==> {
            let abandoned = lock.abandoned();
            &&& !abandoned.send_allowed
            &&& abandoned.close_reason == Some(ChannelSendLockCloseReason::Dropped)
            &&& abandoned.notify_tx is None
        },
{
}

} // verus!

//! The two ends of a channel, and the request of the remote side to open one.

use crate::external::wakes;
use crate::message::{ChannelMsg, ChannelReceiveError, ChannelSendError};
use crate::receive_buffer::{ChannelReceiverBufferState, Dequeued, ReceiveBuffer};
use crate::send_lock::{
    lock_after, AuthorityStep, ChannelSendLockState, LockStep, SendLockAnswer,
};
use futures::channel::oneshot;
use vstd::prelude::*;

verus! {

/// The ports of a channel.
#[derive(Debug, Clone, Copy, PartialEq, Eq, Structural)]
pub struct ChannelData {
    pub local_port: u32,
    pub remote_port: u32,
}

/// The sending end of a channel.
#[derive(Debug)]
pub struct ChannelSender {
    pub local_port: u32,
    pub remote_port: u32,
}

/// The receiving end of a channel.
#[derive(Debug)]
pub struct ChannelReceiver {
    pub local_port: u32,
    pub remote_port: u32,
    pub closed: bool,
    /// The end of the stream has been read.
    pub ended: bool,
}

/// Sends data into a multiplex channel.
pub struct MultiplexSender<SinkItem> {
    pub item: std::marker::PhantomData<SinkItem>,
}

/// What is to be done with an item that was given to a channel for sending.
pub enum Prepared<Content> {
    /// Hand this to the multiplexer.
    Send(ChannelMsg<Content>),
    /// The item cannot be sent.
    Failed(ChannelSendError),
    /// Sending is paused. Try again with the same item once `resumed` resolves.
    Wait { item: Content, resumed: oneshot::Receiver<()> },
}

/// What is read from a channel.
pub enum Received<Content> {
    /// The next item of the stream.
    Item {
        item: Result<Content, ChannelReceiveError>,
        /// What to tell the multiplexer.
        notify: Option<ChannelMsg<Content>>,
    },
    /// The end of the stream.
    End,
    /// There is no item yet. Try again once this resolves.
    Wait(oneshot::Receiver<()>),
}

impl<Content> Received<Content> {
    /// The next item of the stream, and `None` at its end.
    pub open spec fn yielded(self) -> Option<Result<Content, ChannelReceiveError>> {
        match self {
            Received::Item { item, .. } => Some(item),
            _ => None,
        }
    }

    /// What the multiplexer is told.
    pub open spec fn notice(self) -> Option<ChannelMsg<Content>> {
        match self {
            Received::Item { notify, .. } => notify,
            _ => None,
        }
    }
}

impl ChannelData {
    /// Makes the two ends of the channel.
    pub fn instantiate(self) -> (ends: (ChannelSender, ChannelReceiver))
        ensures
            ends.0 == ChannelSender::at(self),
            ends.1 == ChannelReceiver::at(self),
    {
        let sender = ChannelSender::new(self.local_port, self.remote_port);
        let receiver = ChannelReceiver::new(self.local_port, self.remote_port);
        (sender, receiver)
    }
}

impl ChannelSender {
    /// The sending end of the channel with the ports `data`.
    pub open spec fn at(data: ChannelData) -> ChannelSender {
        ChannelSender { local_port: data.local_port, remote_port: data.remote_port }
    }

    /// What the multiplexer is told when an item is sent.
    pub open spec fn sending<Content>(self, item: Content) -> ChannelMsg<Content> {
        ChannelMsg::SendMsg { remote_port: self.remote_port, content: item }
    }

    /// What the multiplexer is told when this end is dropped.
    pub open spec fn ending<Content>(self) -> ChannelMsg<Content> {
        ChannelMsg::SenderDropped { local_port: self.local_port }
    }

    /// Creates the sending end of a channel.
    pub fn new(local_port: u32, remote_port: u32) -> (sender: ChannelSender)
        ensures
            sender == ChannelSender::at(ChannelData { local_port, remote_port }),
    {
        ChannelSender { local_port, remote_port }
    }

    /// What to do with an item under the send lock of the channel: it goes to
    /// the remote port, if the lock allows it.
    pub fn prepare<Content>(&self, tx_lock: &mut ChannelSendLockState, item: Content) -> (prepared:
        Prepared<Content>)
        ensures
            match old(tx_lock).verdict() {
                Some(Ok(())) => {
                    &&& prepared == Prepared::Send(self.sending(item))
                    &&& *final(tx_lock) == *old(tx_lock)
                },
                Some(Err(error)) => {
                    &&& prepared == Prepared::<Content>::Failed(error)
                    &&& *final(tx_lock) == *old(tx_lock)
                },
                None => {
                    &&& prepared matches Prepared::Wait { item: back, resumed } && back == item && (
                    final(tx_lock).notify_tx matches Some(tx) && wakes(tx, resumed))
                    &&& *final(tx_lock) == (ChannelSendLockState {
                        notify_tx: final(tx_lock).notify_tx,
                        ..*old(tx_lock)
                    })
                },
            },
    {
        match tx_lock.request() {
            SendLockAnswer::Allowed => Prepared::Send(
                ChannelMsg::SendMsg { remote_port: self.remote_port, content: item },
            ),
            SendLockAnswer::Refused(error) => Prepared::Failed(error),
            SendLockAnswer::Wait(resumed) => Prepared::Wait { item, resumed },
        }
    }

    /// Drops this end. Returns what to tell the multiplexer.
    pub fn dropped<Content>(self) -> (msg: ChannelMsg<Content>)
        ensures
            msg == self.ending::<Content>(),
    {
        ChannelMsg::SenderDropped { local_port: self.local_port }
    }
}

impl ChannelReceiver {
    /// The receiving end of the channel with the ports `data`, neither closed nor
    /// read to its end.
    pub open spec fn at(data: ChannelData) -> ChannelReceiver {
        ChannelReceiver {
            local_port: data.local_port,
            remote_port: data.remote_port,
            closed: false,
            ended: false,
        }
    }

    /// Creates the receiving end of a channel.
    pub fn new(local_port: u32, remote_port: u32) -> (receiver: ChannelReceiver)
        ensures
            receiver == ChannelReceiver::at(ChannelData { local_port, remote_port }),
    {
        ChannelReceiver { local_port, remote_port, closed: false, ended: false }
    }

    /// Prevents the remote endpoint from sending new messages into this channel
    /// while allowing in-flight messages to be received. Returns what to tell
    /// the multiplexer: nothing, where the channel was closed before.
    pub fn close<Content>(&mut self) -> (msg: Option<ChannelMsg<Content>>)
        ensures
            msg == old(self).closing::<Content>(true),
            *final(self) == (ChannelReceiver { closed: true, ..*old(self) }),
    {
        if !self.closed {
            self.closed = true;
            Some(ChannelMsg::ReceiverClosed { local_port: self.local_port, gracefully: true })
        } else {
            None
        }
    }

    /// What to tell the multiplexer when this end is dropped: nothing, where it
    /// was closed before.
    pub fn dropped<Content>(&self) -> (msg: Option<ChannelMsg<Content>>)
        ensures
            msg == self.closing::<Content>(false),
    {
        if !self.closed {
            Some(ChannelMsg::ReceiverClosed { local_port: self.local_port, gracefully: false })
        } else {
            None
        }
    }

    /// What the stream yields when dequeuing gives `outcome`: the same, until the
    /// end has been read.
    pub open spec fn yields<Content>(
        self,
        outcome: Option<Result<Content, ChannelReceiveError>>,
    ) -> Option<Result<Content, ChannelReceiveError>> {
        if self.ended {
            None
        } else {
            outcome
        }
    }

    /// This end after the stream has yielded `outcome`.
    pub open spec fn after_yield<Content>(
        self,
        outcome: Option<Result<Content, ChannelReceiveError>>,
    ) -> ChannelReceiver {
        ChannelReceiver { ended: self.ended || outcome is None, ..self }
    }

    /// Reads the next item of the stream from the receive buffer of the channel.
    /// Once the end has been read, nothing is dequeued any more.
    pub fn poll_next<Content>(&mut self, rx_buffer: &mut ChannelReceiverBufferState<Content>) -> (received:
        Received<Content>)
        ensures
            match received {
                Received::Wait(rx) => {
                    &&& !old(self).ended
                    &&& old(rx_buffer)@.next() is None
                    &&& final(rx_buffer)@.item_enqueued matches Some(tx) && wakes(tx, rx)
                    &&& final(rx_buffer)@ == (ReceiveBuffer {
                        item_enqueued: final(rx_buffer)@.item_enqueued,
                        ..old(rx_buffer)@
                    })
                    &&& *final(self) == *old(self)
                },
                _ => {
                    &&& old(self).ended || old(rx_buffer)@.next() is Some
                    &&& received.yielded() == old(self).yields(old(rx_buffer)@.next()->0)
                    &&& received.notice() == (if old(self).ended {
                        None
                    } else {
                        old(rx_buffer)@.notice()
                    })
                    &&& final(rx_buffer)@ == (if old(self).ended {
                        old(rx_buffer)@
                    } else {
                        old(rx_buffer)@.after_next()
                    })
                    &&& *final(self) == old(self).after_yield(old(rx_buffer)@.next()->0)
                },
            },
            final(self).local_port == old(self).local_port,
            final(self).remote_port == old(self).remote_port,
            final(self).closed == old(self).closed,
            !old(self).ended && old(rx_buffer)@.items.len() > 0 ==> received.yielded() == Some(
                Ok::<Content, ChannelReceiveError>(old(rx_buffer)@.items[0]),
            ),
    {
        if self.ended {
            return Received::End;
        }
        match rx_buffer.dequeue() {
            Dequeued::Item { item, notify } => Received::Item { item: Ok(item), notify },
            Dequeued::Failed(error) => Received::Item { item: Err(error), notify: None },
            Dequeued::Finished => {
                self.ended = true;
                Received::End
            },
            Dequeued::Wait(rx) => Received::Wait(rx),
        }
    }

    /// What the multiplexer is told when this end is closed or dropped.
    pub open spec fn closing<Content>(self, gracefully: bool) -> Option<ChannelMsg<Content>> {
        if self.closed {
            None
        } else {
            Some(ChannelMsg::ReceiverClosed { local_port: self.local_port, gracefully })
        }
    }
}

/// A service request by the remote endpoint.
#[derive(Debug)]
pub struct RemoteConnectToServiceRequest {
    pub channel_data: Option<ChannelData>,
}

/// What the holder of a service request does with it.
pub enum RequestStep<Content> {
    Accept,
    Reject(Option<Content>),
    Dropped,
}

impl RemoteConnectToServiceRequest {
    /// Creates a request for the channel with the ports `channel_data`.
    pub fn new(channel_data: ChannelData) -> (request: RemoteConnectToServiceRequest)
        ensures
            request == (RemoteConnectToServiceRequest { channel_data: Some(channel_data) }),
    {
        RemoteConnectToServiceRequest { channel_data: Some(channel_data) }
    }

    /// The request has not been answered.
    pub open spec fn pending(self) -> bool {
        self.channel_data is Some
    }

    /// The request once it has been answered.
    pub open spec fn answered(self) -> RemoteConnectToServiceRequest {
        RemoteConnectToServiceRequest { channel_data: None }
    }

    /// What the multiplexer is told on `step`: a request that was answered
    /// before is not answered again.
    pub open spec fn answer<Content>(self, step: RequestStep<Content>) -> Option<
        ChannelMsg<Content>,
    > {
        match self.channel_data {
            None => None,
            Some(data) => Some(
                match step {
                    RequestStep::Accept => ChannelMsg::Accepted { local_port: data.local_port },
                    RequestStep::Reject(reason) => ChannelMsg::Rejected {
                        local_port: data.local_port,
                        reason,
                    },
                    RequestStep::Dropped => ChannelMsg::Rejected {
                        local_port: data.local_port,
                        reason: None,
                    },
                },
            ),
        }
    }

    /// Accepts the service request. Returns what to tell the multiplexer, and a
    /// pair of channel sender and receiver.
    pub fn accept<Content>(&mut self) -> (accepted: (
        ChannelMsg<Content>,
        ChannelSender,
        ChannelReceiver,
    ))
        requires
            old(self).pending(),
        ensures
            Some(accepted.0) == old(self).answer(RequestStep::<Content>::Accept),
            old(self).channel_data matches Some(data) && accepted.1 == ChannelSender::at(data)
                && accepted.2 == ChannelReceiver::at(data),
            *final(self) == old(self).answered(),
    {
        let channel_data = self.channel_data.take().unwrap();
        let (sender, receiver) = channel_data.instantiate();
        (ChannelMsg::Accepted { local_port: channel_data.local_port }, sender, receiver)
    }

    /// Rejects the service request, optionally with a reason. Returns what to
    /// tell the multiplexer.
    pub fn reject<Content>(&mut self, reason: Option<Content>) -> (msg: ChannelMsg<Content>)
        requires
            old(self).pending(),
        ensures
            Some(msg) == old(self).answer(RequestStep::Reject(reason)),
            *final(self) == old(self).answered(),
    {
        let channel_data = self.channel_data.take().unwrap();
        ChannelMsg::Rejected { local_port: channel_data.local_port, reason }
    }

    /// What to tell the multiplexer when the request is dropped: it is rejected,
    /// unless it was answered before.
    pub fn dropped<Content>(&mut self) -> (msg: Option<ChannelMsg<Content>>)
        ensures
            msg == old(self).answer(RequestStep::<Content>::Dropped),
            *final(self) == old(self).answered(),
    {
        match self.channel_data.take() {
            Some(channel_data) => Some(
                ChannelMsg::Rejected { local_port: channel_data.local_port, reason: None },
            ),
            None => None,
        }
    }
}

/// All that the multiplexer is told about a request in the course of `steps`.
pub open spec fn answers<Content>(
    request: RemoteConnectToServiceRequest,
    steps: Seq<RequestStep<Content>>,
) -> Seq<ChannelMsg<Content>>
    decreases steps.len(),
{
    if steps.len() == 0 {
        Seq::empty()
    } else {
        let told = match request.answer(steps[0]) {
            Some(msg) => seq![msg],
            None => Seq::empty(),
        };
        told + answers(request.answered(), steps.drop_first())
    }
}

/// A request is answered exactly once, by what its holder does first.
pub proof fn law_one_answer<Content>(
    request: RemoteConnectToServiceRequest,
    steps: Seq<RequestStep<Content>>,
)
    requires
        request.pending(),
        steps.len() > 0,
    ensures
        request.answer(steps[0]) matches Some(msg) && answers(request, steps) == seq![msg],
{
    lemma_no_second_answer(request.answered(), steps.drop_first());
    assert(answers(request, steps) =~= seq![request.answer(steps[0])->0]);
}

/// A request that has been answered is not answered again.
proof fn lemma_no_second_answer<Content>(
    request: RemoteConnectToServiceRequest,
    steps: Seq<RequestStep<Content>>,
)
    requires
        !request.pending(),
    ensures
        answers(request, steps) == Seq::<ChannelMsg<Content>>::empty(),
    decreases steps.len(),
{
    if steps.len() > 0 {
        lemma_no_second_answer(request.answered(), steps.drop_first());
        assert(answers(request, steps) =~= Seq::<ChannelMsg<Content>>::empty());
    }
}

/// What happens to a sender, or to its send lock, before it is dropped.
pub enum SenderUse<Content> {
    /// An item is given to it for sending. Where it has to wait, the item is given
    /// to it again later.
    Offer(Content),
    /// Something is done to the send lock.
    Lock(LockStep),
}

/// The send lock of a sender after `uses`.
pub open spec fn lock_during<Content>(
    lock: ChannelSendLockState,
    uses: Seq<SenderUse<Content>>,
) -> ChannelSendLockState
    decreases uses.len(),
{
    if uses.len() == 0 {
        lock
    } else {
        let before = lock_during(lock, uses.drop_last());
        match uses.last() {
            SenderUse::Offer(_) => before,
            SenderUse::Lock(step) => lock_after(before, step),
        }
    }
}

/// The items that are sent in the course of `uses`: those that were offered when
/// the lock allowed it.
pub open spec fn items_sent<Content>(
    lock: ChannelSendLockState,
    uses: Seq<SenderUse<Content>>,
) -> Seq<Content>
    decreases uses.len(),
{
    if uses.len() == 0 {
        Seq::empty()
    } else {
        let before = items_sent(lock, uses.drop_last());
        match uses.last() {
            SenderUse::Offer(item) => if lock_during(lock, uses.drop_last()).verdict() == Some(
                Ok::<(), ChannelSendError>(()),
            ) {
                before.push(item)
            } else {
                before
            },
            SenderUse::Lock(_) => before,
        }
    }
}

/// All that the multiplexer is told by a sender in the course of `uses`.
pub open spec fn told_during<Content>(
    sender: ChannelSender,
    lock: ChannelSendLockState,
    uses: Seq<SenderUse<Content>>,
) -> Seq<ChannelMsg<Content>>
    decreases uses.len(),
{
    if uses.len() == 0 {
        Seq::empty()
    } else {
        let before = told_during(sender, lock, uses.drop_last());
        match uses.last() {
            SenderUse::Offer(item) => match lock_during(lock, uses.drop_last()).verdict() {
                Some(Ok(())) => before.push(sender.sending(item)),
                _ => before,
            },
            SenderUse::Lock(_) => before,
        }
    }
}

/// All that the multiplexer is told by a sender that is dropped after `uses`.
pub open spec fn told_by_sender<Content>(
    sender: ChannelSender,
    lock: ChannelSendLockState,
    uses: Seq<SenderUse<Content>>,
) -> Seq<ChannelMsg<Content>> {
    told_during(sender, lock, uses).push(sender.ending())
}

/// The multiplexer hears of the items that a sender sends, in order, each for the
/// remote port, and then of its end, exactly once and for the local port. Nothing
/// comes after that.
pub proof fn law_sender_ends_once<Content>(
    sender: ChannelSender,
    lock: ChannelSendLockState,
    uses: Seq<SenderUse<Content>>,
)
    ensures
        ({
            let (told, items) = (told_by_sender(sender, lock, uses), items_sent(lock, uses));
            &&& told.len() == items.len() + 1
            &&& forall|i: int|
                0 <= i < items.len() ==> #[trigger] told[i] == (ChannelMsg::SendMsg {
                    remote_port: sender.remote_port,
                    content: items[i],
                })
            &&& told.last() == (ChannelMsg::<Content>::SenderDropped {
                local_port: sender.local_port,
            })
        }),
    decreases uses.len(),
{
    if uses.len() > 0 {
        let before = uses.drop_last();
        law_sender_ends_once(sender, lock, before);
        let (told, items) = (told_by_sender(sender, lock, before), items_sent(lock, before));
        assert forall|i: int| 0 <= i < items.len() implies #[trigger] told_by_sender(
            sender,
            lock,
            uses,
        )[i] == (ChannelMsg::SendMsg { remote_port: sender.remote_port, content: items[i] }) by {
            assert(told[i] == told_by_sender(sender, lock, uses)[i]);
        }
    }
}

/// Nothing is sent between Pause and Resume: once the lock has been told to pause,
/// no item is sent until it has been told to resume, whatever else happens to it.
pub proof fn law_nothing_sent_while_paused<Content>(
    lock: ChannelSendLockState,
    uses: Seq<SenderUse<Content>>,
    at: int,
)
    requires
        0 <= at < uses.len(),
        uses[at] == SenderUse::<Content>::Lock(LockStep::Authority(AuthorityStep::Pause)),
        forall|i: int|
            at < i < uses.len() ==> #[trigger] uses[i] != SenderUse::<Content>::Lock(
                LockStep::Authority(AuthorityStep::Resume),
            ),
    ensures
        lock_during(lock, uses).verdict() != Some(Ok::<(), ChannelSendError>(())),
        items_sent(lock, uses) == items_sent(lock, uses.take(at)),
    decreases uses.len(),
{
    let before = uses.drop_last();
    assert(uses.last() == uses[uses.len() - 1]);
    if at < uses.len() - 1 {
        assert forall|i: int| at < i < before.len() implies #[trigger] before[i] != SenderUse::<
            Content,
        >::Lock(LockStep::Authority(AuthorityStep::Resume)) by {
            assert(before[i] == uses[i]);
        }
        law_nothing_sent_while_paused(lock, before, at);
        assert(before.take(at) =~= uses.take(at));
    } else {
        assert(uses.take(at) =~= before);
    }
}

/// What a receiver yields, read as a stream, when dequeuing gives `outcomes` one
/// after the other.
pub open spec fn stream_of<Content>(
    receiver: ChannelReceiver,
    outcomes: Seq<Option<Result<Content, ChannelReceiveError>>>,
) -> Seq<Option<Result<Content, ChannelReceiveError>>>
    decreases outcomes.len(),
{
    if outcomes.len() == 0 {
        Seq::empty()
    } else {
        seq![receiver.yields(outcomes[0])] + stream_of(
            receiver.after_yield(outcomes[0]),
            outcomes.drop_first(),
        )
    }
}

/// A receiver, read as a stream, yields exactly what dequeuing gives, items and
/// errors alike and in order, up to the first end. There the stream ends, for good.
pub proof fn law_stream_yields_what_is_dequeued<Content>(
    receiver: ChannelReceiver,
    outcomes: Seq<Option<Result<Content, ChannelReceiveError>>>,
    end: int,
)
    requires
        !receiver.ended,
        0 <= end <= outcomes.len(),
        forall|i: int| 0 <= i < end ==> #[trigger] outcomes[i] is Some,
        end < outcomes.len() ==> outcomes[end] is None,
    ensures
        stream_of(receiver, outcomes).len() == outcomes.len(),
        forall|i: int|
            0 <= i < outcomes.len() ==> #[trigger] stream_of(receiver, outcomes)[i] == (if i < end {
                outcomes[i]
            } else {
                None
            }),
    decreases outcomes.len(),
{
    if outcomes.len() > 0 {
        let (first, rest) = (outcomes[0], outcomes.drop_first());
        if end == 0 {
            lemma_ended_stream_stays_ended(receiver.after_yield(first), rest);
        } else {
            assert forall|i: int| 0 <= i < end - 1 implies #[trigger] rest[i] is Some by {
                assert(rest[i] == outcomes[i + 1]);
            }
            law_stream_yields_what_is_dequeued(receiver, rest, end - 1);
            assert(receiver.after_yield(first) == receiver);
        }
    }
}

/// A stream whose end has been read yields nothing more.
proof fn lemma_ended_stream_stays_ended<Content>(
    receiver: ChannelReceiver,
    outcomes: Seq<Option<Result<Content, ChannelReceiveError>>>,
)
    requires
        receiver.ended,
    ensures
        stream_of(receiver, outcomes).len() == outcomes.len(),
        forall|i: int|
            0 <= i < outcomes.len() ==> #[trigger] stream_of(receiver, outcomes)[i] is None,
    decreases outcomes.len(),
{
    if outcomes.len() > 0 {
        lemma_ended_stream_stays_ended(receiver.after_yield(outcomes[0]), outcomes.drop_first());
    }
}

/// All that the multiplexer is told by a receiver that is closed `closes` times
/// and then dropped.
pub open spec fn told_by_receiver<Content>(receiver: ChannelReceiver, closes: nat) -> Seq<
    ChannelMsg<Content>,
>
    decreases closes,
{
    let told = match receiver.closing::<Content>(closes > 0) {
        Some(msg) => seq![msg],
        None => Seq::empty(),
    };
    if closes == 0 {
        told
    } else {
        told + told_by_receiver(
            ChannelReceiver { closed: true, ..receiver },
            (closes - 1) as nat,
        )
    }
}

/// The multiplexer hears of the end of a receiver exactly once, however often it
/// is closed: as a graceful end if it was closed, as another if it was only
/// dropped.
pub proof fn law_receiver_ends_once<Content>(receiver: ChannelReceiver, closes: nat)
    requires
        !receiver.closed,
    ensures
        told_by_receiver::<Content>(receiver, closes) == seq![
            ChannelMsg::<Content>::ReceiverClosed {
                local_port: receiver.local_port,
                gracefully: closes > 0,
            },
        ],
{
    if closes > 0 {
        lemma_closed_receiver_is_silent::<Content>(
            ChannelReceiver { closed: true, ..receiver },
            (closes - 1) as nat,
        );
    }
    assert(told_by_receiver::<Content>(receiver, closes) =~= seq![
        ChannelMsg::<Content>::ReceiverClosed {
            local_port: receiver.local_port,
            gracefully: closes > 0,
        },
    ]);
}

/// A receiver that was closed tells nothing more.
proof fn lemma_closed_receiver_is_silent<Content>(receiver: ChannelReceiver, closes: nat)
    requires
        receiver.closed,
    ensures
        told_by_receiver::<Content>(receiver, closes) == Seq::<ChannelMsg<Content>>::empty(),
    decreases closes,
{
    if closes > 0 {
        lemma_closed_receiver_is_silent::<Content>(receiver, (closes - 1) as nat);
        assert(ChannelReceiver { closed: true, ..receiver } == receiver);
    }
    assert(told_by_receiver::<Content>(receiver, closes) =~= Seq::<ChannelMsg<Content>>::empty());
}

/// What happens to a receiver before it is dropped.
pub enum ReceiverUse<Content> {
    /// It is read, and dequeuing gives this.
    Read(Option<Result<Content, ChannelReceiveError>>),
    /// It is closed.
    Close,
}

/// All that the multiplexer is told by a receiver that is dropped after `uses`.
pub open spec fn told_by_used_receiver<Content>(
    receiver: ChannelReceiver,
    uses: Seq<ReceiverUse<Content>>,
) -> Seq<ChannelMsg<Content>>
    decreases uses.len(),
{
    if uses.len() == 0 {
        match receiver.closing::<Content>(false) {
            Some(msg) => seq![msg],
            None => Seq::empty(),
        }
    } else {
        let rest = uses.drop_first();
        match uses[0] {
            ReceiverUse::Read(outcome) => told_by_used_receiver(
                receiver.after_yield(outcome),
                rest,
            ),
            ReceiverUse::Close => {
                let told = match receiver.closing::<Content>(true) {
                    Some(msg) => seq![msg],
                    None => Seq::empty(),
                };
                told + told_by_used_receiver(ChannelReceiver { closed: true, ..receiver }, rest)
            },
        }
    }
}

/// However a receiver is read and closed before it is dropped, the multiplexer hears
/// of its end exactly once, for its local port: as a graceful end exactly if it was
/// closed. Reading makes no difference.
pub proof fn law_used_receiver_ends_once<Content>(
    receiver: ChannelReceiver,
    uses: Seq<ReceiverUse<Content>>,
)
    requires
        !receiver.closed,
    ensures
        told_by_used_receiver(receiver, uses) == seq![
            ChannelMsg::<Content>::ReceiverClosed {
                local_port: receiver.local_port,
                gracefully: uses.contains(ReceiverUse::Close),
            },
        ],
    decreases uses.len(),
{
    if uses.len() > 0 {
        let rest = uses.drop_first();
        match uses[0] {
            ReceiverUse::Read(outcome) => {
                law_used_receiver_ends_once(receiver.after_yield(outcome), rest);
                if uses.contains(ReceiverUse::Close) {
                    let i = choose|i: int|
                        0 <= i < uses.len() && uses[i] == ReceiverUse::<Content>::Close;
                    assert(rest[i - 1] == ReceiverUse::<Content>::Close);
                }
                if rest.contains(ReceiverUse::Close) {
                    let i = choose|i: int|
                        0 <= i < rest.len() && rest[i] == ReceiverUse::<Content>::Close;
                    assert(uses[i + 1] == ReceiverUse::<Content>::Close);
                }
            },
            ReceiverUse::Close => {
                lemma_used_closed_receiver_is_silent(
                    ChannelReceiver { closed: true, ..receiver },
                    rest,
                );
                assert(uses[0] == ReceiverUse::<Content>::Close);
                assert(told_by_used_receiver(receiver, uses) =~= seq![
                    ChannelMsg::<Content>::ReceiverClosed {
                        local_port: receiver.local_port,
                        gracefully: true,
                    },
                ]);
            },
        }
    }
}

/// A receiver that was closed tells nothing more, however it is used.
proof fn lemma_used_closed_receiver_is_silent<Content>(
    receiver: ChannelReceiver,
    uses: Seq<ReceiverUse<Content>>,
)
    requires
        receiver.closed,
    ensures
        told_by_used_receiver(receiver, uses) == Seq::<ChannelMsg<Content>>::empty(),
    decreases uses.len(),
{
    if uses.len() > 0 {
        let rest = uses.drop_first();
        match uses[0] {
            ReceiverUse::Read(outcome) => {
                lemma_used_closed_receiver_is_silent(receiver.after_yield(outcome), rest);
            },
            ReceiverUse::Close => {
                lemma_used_closed_receiver_is_silent(
                    ChannelReceiver { closed: true, ..receiver },
                    rest,
                );
                assert(told_by_used_receiver(receiver, uses) =~= Seq::<
                    ChannelMsg<Content>,
                >::empty());
            },
        }
    }
}

/// Reading changes nothing about a receiver but whether its end has been read, and
/// until then it yields what dequeuing gives.
pub proof fn law_reading_only_finds_the_end<Content>(
    receiver: ChannelReceiver,
    outcome: Option<Result<Content, ChannelReceiveError>>,
)
    ensures
        ({
            let after = receiver.after_yield(outcome);
            &&& after.local_port == receiver.local_port
            &&& after.remote_port == receiver.remote_port
            &&& after.closed == receiver.closed
            &&& after.ended <==> receiver.ended || outcome is None
            &&& after.closing::<Content>(true) == receiver.closing::<Content>(true)
            &&& after.closing::<Content>(false) == receiver.closing::<Content>(false)
        }),
        !receiver.ended ==> receiver.yields(outcome) == outcome,
        receiver.ended ==> receiver.yields(outcome) is None,
        forall|received: Received<Content>|
            {
                &&& received matches Received::Item { item, notify } ==> received.yielded() == Some(
                    item,
                ) && received.notice() == notify
                &&& received is End ==> #[trigger] received.yielded() is None && received.notice()
                    is None
            },
{
}

/// The two ends of a channel carry its two ports, each in its place, and a new
/// receiver is neither closed nor read to its end.
pub proof fn law_ends_carry_the_ports(local_port: u32, remote_port: u32)
    ensures
        ({
            let data = ChannelData { local_port, remote_port };
            let (sender, receiver) = (ChannelSender::at(data), ChannelReceiver::at(data));
            &&& sender.local_port == local_port && sender.remote_port == remote_port
            &&& receiver.local_port == local_port && receiver.remote_port == remote_port
            &&& !receiver.closed && !receiver.ended
        }),
{
}

/// The answer to a request says what was decided: accepting it tells of its local
/// port that it is accepted; rejecting it that it is rejected, with the reason;
/// dropping it that it is rejected, without one. Once answered it is not pending.
pub proof fn law_answer_says_what_was_decided<Content>(
    request: RemoteConnectToServiceRequest,
    data: ChannelData,
    reason: Option<Content>,
)
    requires
        request.channel_data == Some(data),
    ensures
        request.pending(),
        !request.answered().pending() && request.answered().channel_data is None,
        request.answer(RequestStep::<Content>::Accept) == Some(
            ChannelMsg::<Content>::Accepted { local_port: data.local_port },
        ),
        request.answer(RequestStep::Reject(reason)) == Some(
            ChannelMsg::Rejected { local_port: data.local_port, reason },
        ),
        request.answer(RequestStep::<Content>::Dropped) == Some(
            ChannelMsg::<Content>::Rejected { local_port: data.local_port, reason: None },
        ),
        forall|step: RequestStep<Content>| #[trigger] request.answered().answer(step) is None,
{
}

} // verus!

//! The receive buffer of a channel: a bounded queue with flow control.

use crate::external::{wake_channel, wakes};
use crate::message::{ChannelMsg, ChannelReceiveError, MultiplexMsg};
use futures::channel::oneshot;
use std::collections::VecDeque;
use vstd::prelude::*;

verus! {

/// Channel receive buffer configuration.
#[derive(Debug, Clone, Copy, PartialEq, Eq, Structural)]
pub struct ChannelReceiverBufferCfg {
    /// Buffer length that will trigger sending resume notification.
    pub resume_length: usize,
    /// Buffer length that will trigger sending pause notification.
    pub pause_length: usize,
    /// When buffer length reaches this value, enqueuing has to wait.
    pub block_length: usize,
    /// Local port for resume notification.
    pub local_port: u32,
}

/// Why nothing more will be put into a receive buffer.
#[derive(Debug, Clone, Copy, PartialEq, Eq, Structural)]
pub enum ChannelReceiverBufferCloseReason {
    /// The receive stream is finished.
    Closed,
    /// The multiplexer went away.
    Dropped,
}

/// State of a channel receive buffer.
///
/// The enqueuer calls `enqueue`, `resume_message`, `close` and `dropped`, the
/// dequeuer calls `dequeue`.
pub struct ChannelReceiverBufferState<Content> {
    cfg: ChannelReceiverBufferCfg,
    buffer: VecDeque<Content>,
    close_reason: Option<ChannelReceiverBufferCloseReason>,
    item_enqueued: Option<oneshot::Sender<()>>,
    item_dequeued: Option<oneshot::Sender<()>>,
}

/// What a receive buffer is: the items in it, oldest first, and who waits.
#[verifier::ext_equal]
pub struct ReceiveBuffer<Content> {
    pub cfg: ChannelReceiverBufferCfg,
    pub items: Seq<Content>,
    pub close_reason: Option<ChannelReceiverBufferCloseReason>,
    /// Wakes the dequeuer that waits for an item.
    pub item_enqueued: Option<oneshot::Sender<()>>,
    /// Wakes the enqueuer that waits for room.
    pub item_dequeued: Option<oneshot::Sender<()>>,
}

impl<Content> View for ChannelReceiverBufferState<Content> {
    type V = ReceiveBuffer<Content>;

    closed spec fn view(&self) -> ReceiveBuffer<Content> {
        ReceiveBuffer {
            cfg: self.cfg,
            items: self.buffer@,
            close_reason: self.close_reason,
            item_enqueued: self.item_enqueued,
            item_dequeued: self.item_dequeued,
        }
    }
}

impl<Content> ReceiveBuffer<Content> {
    /// A buffer that nobody has touched.
    pub open spec fn initial(cfg: ChannelReceiverBufferCfg) -> ReceiveBuffer<Content> {
        ReceiveBuffer {
            cfg,
            items: Seq::empty(),
            close_reason: None,
            item_enqueued: None,
            item_dequeued: None,
        }
    }

    /// There is no room for another item.
    pub open spec fn full(self) -> bool {
        self.items.len() >= self.cfg.block_length
    }

    /// The buffer with `item` behind the others. No dequeuer waits any more.
    pub open spec fn stored(self, item: Content) -> ReceiveBuffer<Content> {
        ReceiveBuffer { items: self.items.push(item), item_enqueued: None, ..self }
    }

    /// The buffer without its oldest item. No enqueuer waits any more.
    pub open spec fn taken(self) -> ReceiveBuffer<Content> {
        ReceiveBuffer { items: self.items.drop_first(), item_dequeued: None, ..self }
    }

    /// The pause length is reached. Right after an item was stored this means
    /// that it was reached from below.
    pub open spec fn at_pause_length(self) -> bool {
        self.items.len() == self.cfg.pause_length
    }

    /// The resume length is reached. Right after an item was taken this means
    /// that it was reached from above.
    pub open spec fn at_resume_length(self) -> bool {
        self.items.len() == self.cfg.resume_length
    }

    /// The buffer length is at or below the resume length.
    pub open spec fn resumeable(self) -> bool {
        self.items.len() <= self.cfg.resume_length
    }

    /// What the next dequeuing gives: an item or an error, or `None` at the end of
    /// the stream. Nothing, where it has to wait.
    pub open spec fn next(self) -> Option<Option<Result<Content, ChannelReceiveError>>> {
        if self.items.len() > 0 {
            Some(Some(Ok(self.items[0])))
        } else {
            match self.close_reason {
                Some(ChannelReceiverBufferCloseReason::Closed) => Some(None),
                Some(ChannelReceiverBufferCloseReason::Dropped) => Some(
                    Some(Err(ChannelReceiveError::MultiplexerError)),
                ),
                None => None,
            }
        }
    }

    /// The buffer after a dequeuing that did not have to wait.
    pub open spec fn after_next(self) -> ReceiveBuffer<Content> {
        if self.items.len() > 0 {
            self.taken()
        } else {
            self
        }
    }

    /// What the multiplexer is told after a dequeuing that did not have to wait.
    pub open spec fn notice(self) -> Option<ChannelMsg<Content>> {
        if self.items.len() > 0 && self.taken().at_resume_length() {
            Some(
                ChannelMsg::ReceiveBufferReachedResumeLength { local_port: self.cfg.local_port },
            )
        } else {
            None
        }
    }

    /// The buffer once its stream has ended for `reason`. No dequeuer waits any
    /// more.
    pub open spec fn ended(self, reason: ChannelReceiverBufferCloseReason) -> ReceiveBuffer<Content> {
        ReceiveBuffer { close_reason: Some(reason), item_enqueued: None, ..self }
    }

    /// The buffer once its enqueuer is gone.
    pub open spec fn abandoned(self) -> ReceiveBuffer<Content> {
        if self.close_reason is None {
            self.ended(ChannelReceiverBufferCloseReason::Dropped)
        } else {
            self
        }
    }
}

/// What became of an item that was to be enqueued.
pub enum Enqueued<Content> {
    /// It is in the buffer.
    Stored {
        /// The pause length has been reached from below.
        pause: bool,
    },
    /// There is no room. Try again with the same item once `room` resolves.
    Full { item: Content, room: oneshot::Receiver<()> },
}

/// The message, where it is asked for.
pub open spec fn if_asked<Content>(asked: bool, msg: MultiplexMsg<Content>) -> Option<
    MultiplexMsg<Content>,
> {
    if asked {
        Some(msg)
    } else {
        None
    }
}

impl<Content> Enqueued<Content> {
    /// The sender is to be paused.
    pub open spec fn asks_to_pause(self) -> bool {
        self matches Enqueued::Stored { pause } && pause
    }

    /// What is to be sent over the link about the item: `pause`, where the pause
    /// length has been reached from below.
    pub fn pause_message(&self, pause: MultiplexMsg<Content>) -> (msg: Option<
        MultiplexMsg<Content>,
    >)
        ensures
            msg == if_asked(self.asks_to_pause(), pause),
    {
        match self {
            Enqueued::Stored { pause: true } => Some(pause),
            _ => None,
        }
    }
}

/// What a dequeuer gets.
pub enum Dequeued<Content> {
    /// The oldest item.
    Item {
        item: Content,
        /// What to tell the multiplexer: the resume length has been reached
        /// from above.
        notify: Option<ChannelMsg<Content>>,
    },
    /// The stream is finished and every item has been taken.
    Finished,
    /// Every item has been taken and there will be no others.
    Failed(ChannelReceiveError),
    /// There is no item yet. Try again once this resolves.
    Wait(oneshot::Receiver<()>),
}

impl ChannelReceiverBufferCfg {
    /// The lengths are in order: resuming comes below pausing, and pausing below
    /// blocking.
    pub open spec fn valid(self) -> bool {
        0 < self.resume_length < self.pause_length < self.block_length
    }

    /// Creates a new channel receiver buffer.
    pub fn instantiate<Content>(self) -> (buffer: ChannelReceiverBufferState<Content>)
        requires
            self.valid(),
        ensures
            buffer@ == ReceiveBuffer::<Content>::initial(self),
    {
        ChannelReceiverBufferState {
            cfg: self,
            buffer: VecDeque::new(),
            close_reason: None,
            item_enqueued: None,
            item_dequeued: None,
        }
    }
}

impl<Content> ChannelReceiverBufferState<Content> {
    /// Enqueues an item into the receive queue, unless the block queue length
    /// has been reached. Wakes the dequeuer that waits for an item.
    pub fn enqueue(&mut self, item: Content) -> (outcome: Enqueued<Content>)
        ensures
            match outcome {
                Enqueued::Stored { pause } => {
                    &&& !old(self)@.full()
                    &&& final(self)@ == old(self)@.stored(item)
                    &&& pause == final(self)@.at_pause_length()
                },
                Enqueued::Full { item: back, room } => {
                    &&& old(self)@.full()
                    &&& back == item
                    &&& final(self)@.item_dequeued matches Some(tx) && wakes(tx, room)
                    &&& final(self)@ == (ReceiveBuffer {
                        item_dequeued: final(self)@.item_dequeued,
                        ..old(self)@
                    })
                },
            },
            outcome is Full <==> old(self)@.items.len() >= old(self)@.cfg.block_length,
    {
        if self.buffer.len() >= self.cfg.block_length {
            let (tx, rx) = wake_channel();
            self.item_dequeued = Some(tx);
            return Enqueued::Full { item, room: rx };
        }

        self.buffer.push_back(item);
        if let Some(tx) = self.item_enqueued.take() {
            let _ = tx.send(());
        }

        Enqueued::Stored { pause: self.buffer.len() == self.cfg.pause_length }
    }

    /// Returns true, if buffer length is at or below resume length.
    pub fn resumeable(&self) -> (answer: bool)
        ensures
            answer == self@.resumeable(),
    {
        self.buffer.len() <= self.cfg.resume_length
    }

    /// What is to be sent over the link when the multiplexer is told that the resume
    /// length has been reached: `resume`, where the buffer is still that short.
    pub fn resume_message(&self, resume: MultiplexMsg<Content>) -> (msg: Option<
        MultiplexMsg<Content>,
    >)
        ensures
            msg == if_asked(self@.resumeable(), resume),
    {
        if self.resumeable() {
            Some(resume)
        } else {
            None
        }
    }

    /// Indicates that the receive stream is finished. Wakes the dequeuer that
    /// waits for an item.
    pub fn close(&mut self)
        ensures
            final(self)@ == old(self)@.ended(ChannelReceiverBufferCloseReason::Closed),
    {
        self.close_reason = Some(ChannelReceiverBufferCloseReason::Closed);
        if let Some(tx) = self.item_enqueued.take() {
            let _ = tx.send(());
        }
    }

    /// The enqueuer of this buffer is gone. A buffer that was closed before
    /// stays as it is.
    pub fn dropped(&mut self)
        ensures
            final(self)@ == old(self)@.abandoned(),
    {
        if self.close_reason.is_none() {
            self.close_reason = Some(ChannelReceiverBufferCloseReason::Dropped);
            if let Some(tx) = self.item_enqueued.take() {
                let _ = tx.send(());
            }
        }
    }

    /// Dequeues an item from the receive queue, and wakes the enqueuer that
    /// waits for room. Items that were enqueued before the end of the stream
    /// come out before the end is reported.
    pub fn dequeue(&mut self) -> (outcome: Dequeued<Content>)
        ensures
            match outcome {
                Dequeued::Item { item, notify } => {
                    &&& old(self)@.next() == Some(Some(Ok::<Content, ChannelReceiveError>(item)))
                    &&& final(self)@ == old(self)@.taken()
                    &&& notify == old(self)@.notice()
                },
                Dequeued::Finished => {
                    &&& old(self)@.next() == Some(None::<Result<Content, ChannelReceiveError>>)
                    &&& final(self)@ == old(self)@
                },
                Dequeued::Failed(error) => {
                    &&& old(self)@.next() == Some(Some(Err::<Content, ChannelReceiveError>(error)))
                    &&& final(self)@ == old(self)@
                },
                Dequeued::Wait(rx) => {
                    &&& old(self)@.next() is None
                    &&& final(self)@.item_enqueued matches Some(tx) && wakes(tx, rx)
                    &&& final(self)@ == (ReceiveBuffer {
                        item_enqueued: final(self)@.item_enqueued,
                        ..old(self)@
                    })
                },
            },
            old(self)@.items.len() > 0 ==> (outcome matches Dequeued::Item { item, .. } && item
                == old(self)@.items[0]),
            outcome is Wait <==> old(self)@.items.len() == 0 && old(self)@.close_reason is None,
    {
        match self.buffer.pop_front() {
            None => match self.close_reason {
                Some(ChannelReceiverBufferCloseReason::Closed) => Dequeued::Finished,
                Some(ChannelReceiverBufferCloseReason::Dropped) => Dequeued::Failed(
                    ChannelReceiveError::MultiplexerError,
                ),
                None => {
                    let (tx, rx) = wake_channel();
                    self.item_enqueued = Some(tx);
                    Dequeued::Wait(rx)
                },
            },
            Some(item) => {
                if let Some(tx) = self.item_dequeued.take() {
                    let _ = tx.send(());
                }
                let notify = if self.buffer.len() == self.cfg.resume_length {
                    Some(
                        ChannelMsg::ReceiveBufferReachedResumeLength {
                            local_port: self.cfg.local_port,
                        },
                    )
                } else {
                    None
                };
                Dequeued::Item { item, notify }
            },
        }
    }
}

/// What one side or the other does to a buffer.
pub enum BufferStep<Content> {
    /// The enqueuer brings an item.
    Enqueue(Content),
    /// The enqueuer found no room and left this behind.
    WaitForRoom(oneshot::Sender<()>),
    /// The dequeuer asks for an item.
    Dequeue,
    /// The dequeuer found no item and left this behind.
    WaitForItem(oneshot::Sender<()>),
    /// The stream is finished.
    Close,
    /// The enqueuer is gone.
    Dropped,
}

/// A buffer and what has passed through it.
pub struct Flow<Content> {
    pub buffer: ReceiveBuffer<Content>,
    /// What was stored, first to last.
    pub stored: Seq<Content>,
    /// What was taken out, first to last.
    pub taken: Seq<Content>,
    /// The last notification was to pause.
    pub paused: bool,
}

/// The flow after `step`. A step that is not possible changes nothing.
pub open spec fn flow_after<Content>(flow: Flow<Content>, step: BufferStep<Content>) -> Flow<
    Content,
> {
    match step {
        BufferStep::Enqueue(item) => if flow.buffer.full() {
            flow
        } else {
            let buffer = flow.buffer.stored(item);
            Flow {
                buffer,
                stored: flow.stored.push(item),
                paused: flow.paused || buffer.at_pause_length(),
                ..flow
            }
        },
        BufferStep::Dequeue => if flow.buffer.items.len() == 0 {
            flow
        } else {
            let buffer = flow.buffer.taken();
            Flow {
                buffer,
                taken: flow.taken.push(flow.buffer.items[0]),
                paused: flow.paused && !buffer.at_resume_length(),
                ..flow
            }
        },
        BufferStep::WaitForRoom(tx) => if flow.buffer.full() {
            Flow { buffer: ReceiveBuffer { item_dequeued: Some(tx), ..flow.buffer }, ..flow }
        } else {
            flow
        },
        BufferStep::WaitForItem(tx) => if flow.buffer.items.len() == 0
            && flow.buffer.close_reason is None {
            Flow { buffer: ReceiveBuffer { item_enqueued: Some(tx), ..flow.buffer }, ..flow }
        } else {
            flow
        },
        BufferStep::Close => Flow {
            buffer: flow.buffer.ended(ChannelReceiverBufferCloseReason::Closed),
            ..flow
        },
        BufferStep::Dropped => Flow { buffer: flow.buffer.abandoned(), ..flow },
    }
}

/// The flow through a new buffer after `steps`.
pub open spec fn flow_after_all<Content>(
    cfg: ChannelReceiverBufferCfg,
    steps: Seq<BufferStep<Content>>,
) -> Flow<Content>
    decreases steps.len(),
{
    if steps.len() == 0 {
        Flow {
            buffer: ReceiveBuffer::initial(cfg),
            stored: Seq::empty(),
            taken: Seq::empty(),
            paused: false,
        }
    } else {
        flow_after(flow_after_all(cfg, steps.drop_last()), steps.last())
    }
}

/// What the enqueuer does among `steps`.
pub open spec fn enqueuer_steps<Content>(steps: Seq<BufferStep<Content>>) -> Seq<
    BufferStep<Content>,
>
    decreases steps.len(),
{
    if steps.len() == 0 {
        Seq::empty()
    } else {
        let before = enqueuer_steps(steps.drop_last());
        match steps.last() {
            BufferStep::Enqueue(_) | BufferStep::Close | BufferStep::Dropped => before.push(
                steps.last(),
            ),
            _ => before,
        }
    }
}

/// The enqueuer brings an item only when there is room.
pub open spec fn waits_for_room<Content>(
    cfg: ChannelReceiverBufferCfg,
    steps: Seq<BufferStep<Content>>,
) -> bool
    decreases steps.len(),
{
    steps.len() > 0 ==> {
        &&& waits_for_room(cfg, steps.drop_last())
        &&& steps.last() is Enqueue ==> !flow_after_all(cfg, steps.drop_last()).buffer.full()
    }
}

/// The items that are brought in the course of `steps`.
pub open spec fn brought<Content>(steps: Seq<BufferStep<Content>>) -> Seq<Content>
    decreases steps.len(),
{
    if steps.len() == 0 {
        Seq::empty()
    } else {
        let before = brought(steps.drop_last());
        match steps.last() {
            BufferStep::Enqueue(item) => before.push(item),
            _ => before,
        }
    }
}

/// Why nothing more is put into the buffer after `steps`, if that is so.
pub open spec fn closed_by<Content>(steps: Seq<BufferStep<Content>>) -> Option<
    ChannelReceiverBufferCloseReason,
>
    decreases steps.len(),
{
    if steps.len() == 0 {
        None
    } else {
        let before = closed_by(steps.drop_last());
        match steps.last() {
            BufferStep::Close => Some(ChannelReceiverBufferCloseReason::Closed),
            BufferStep::Dropped if before is None => Some(
                ChannelReceiverBufferCloseReason::Dropped,
            ),
            _ => before,
        }
    }
}

/// However its steps and those of the dequeuer follow each other, what the enqueuer
/// brings is stored, all of it and in order, and the buffer ends as the enqueuer
/// says.
pub proof fn law_buffer_follows_its_enqueuer<Content>(
    cfg: ChannelReceiverBufferCfg,
    steps: Seq<BufferStep<Content>>,
)
    requires
        waits_for_room(cfg, steps),
    ensures
        flow_after_all(cfg, steps).stored == brought(enqueuer_steps(steps)),
        flow_after_all(cfg, steps).buffer.close_reason == closed_by(enqueuer_steps(steps)),
    decreases steps.len(),
{
    if steps.len() > 0 {
        let before = enqueuer_steps(steps.drop_last());
        law_buffer_follows_its_enqueuer(cfg, steps.drop_last());
        assert(before.push(steps.last()).drop_last() =~= before);
    }
}

/// Items come out in the order in which they were stored, and none is lost: what
/// came out, followed by what is still in the buffer, is what was stored.
pub proof fn law_first_in_first_out<Content>(
    cfg: ChannelReceiverBufferCfg,
    steps: Seq<BufferStep<Content>>,
)
    ensures
        ({
            let flow = flow_after_all(cfg, steps);
            flow.taken + flow.buffer.items == flow.stored
        }),
    decreases steps.len(),
{
    if steps.len() > 0 {
        law_first_in_first_out(cfg, steps.drop_last());
        let after = flow_after_all(cfg, steps);
        assert(after.taken + after.buffer.items =~= after.stored);
    } else {
        let flow = flow_after_all(cfg, steps);
        assert(flow.taken + flow.buffer.items =~= flow.stored);
    }
}

/// A buffer never holds more items than its block length.
pub proof fn law_length_bounded<Content>(
    cfg: ChannelReceiverBufferCfg,
    steps: Seq<BufferStep<Content>>,
)
    ensures
        flow_after_all(cfg, steps).buffer.cfg == cfg,
        flow_after_all(cfg, steps).buffer.items.len() <= cfg.block_length,
    decreases steps.len(),
{
    if steps.len() > 0 {
        law_length_bounded(cfg, steps.drop_last());
    }
}

/// Notifications keep step with the length: where the last one was to pause, the
/// buffer is above its resume length, and where it was not, the buffer is below
/// its pause length. So whoever was told to pause is told to resume before the
/// buffer runs dry.
pub proof fn law_notifications_follow_length<Content>(
    cfg: ChannelReceiverBufferCfg,
    steps: Seq<BufferStep<Content>>,
)
    requires
        cfg.valid(),
    ensures
        ({
            let flow = flow_after_all(cfg, steps);
            &&& flow.paused ==> flow.buffer.items.len() > cfg.resume_length
            &&& !flow.paused ==> flow.buffer.items.len() < cfg.pause_length
        }),
    decreases steps.len(),
{
    if steps.len() > 0 {
        law_notifications_follow_length(cfg, steps.drop_last());
        law_length_bounded(cfg, steps.drop_last());
    }
}

/// Nobody waits for what is there: a dequeuer waits only while the buffer is
/// empty and its stream goes on, an enqueuer only while the buffer is full.
pub proof fn law_no_needless_wait<Content>(
    cfg: ChannelReceiverBufferCfg,
    steps: Seq<BufferStep<Content>>,
)
    ensures
        ({
            let buffer = flow_after_all(cfg, steps).buffer;
            &&& buffer.item_enqueued is Some ==> buffer.items.len() == 0 && buffer.close_reason
                is None
            &&& buffer.item_dequeued is Some ==> buffer.full()
        }),
    decreases steps.len(),
{
    if steps.len() > 0 {
        law_no_needless_wait(cfg, steps.drop_last());
    }
}

/// The buffer after `count` items were taken.
pub open spec fn drained<Content>(buffer: ReceiveBuffer<Content>, count: nat) -> ReceiveBuffer<
    Content,
>
    decreases count,
{
    if count == 0 {
        buffer
    } else {
        drained(buffer, (count - 1) as nat).taken()
    }
}

/// What `count` dequeuings one after the other give, where none of them has to
/// wait.
pub open spec fn outcomes<Content>(buffer: ReceiveBuffer<Content>, count: nat) -> Seq<
    Option<Result<Content, ChannelReceiveError>>,
>
    decreases count,
{
    if count == 0 {
        Seq::empty()
    } else {
        seq![buffer.next()->0] + outcomes(buffer.after_next(), (count - 1) as nat)
    }
}

/// A buffer whose stream has ended never makes its dequeuer wait: it gives every
/// item that is in it, in order, and from then on the end, or the error, for as
/// often as it is asked.
pub proof fn law_ended_buffer_is_read_to_the_end<Content>(
    buffer: ReceiveBuffer<Content>,
    count: nat,
)
    requires
        buffer.close_reason is Some,
    ensures
        buffer.next() is Some,
        buffer.after_next().close_reason == buffer.close_reason,
        outcomes(buffer, count).len() == count,
        forall|i: int|
            0 <= i < count ==> #[trigger] outcomes(buffer, count)[i] == (if i < buffer.items.len() {
                Some(Ok::<Content, ChannelReceiveError>(buffer.items[i]))
            } else if buffer.close_reason == Some(ChannelReceiverBufferCloseReason::Closed) {
                None
            } else {
                Some(Err(ChannelReceiveError::MultiplexerError))
            }),
    decreases count,
{
    if count > 0 {
        law_ended_buffer_is_read_to_the_end(buffer.after_next(), (count - 1) as nat);
    }
}

/// The end of a stream cuts nothing off: after it, every item that is in the
/// buffer still comes out, in order, and only then the end.
pub proof fn law_end_comes_last<Content>(
    buffer: ReceiveBuffer<Content>,
    reason: ChannelReceiverBufferCloseReason,
    count: nat,
)
    requires
        count <= buffer.items.len(),
    ensures
        ({
            let left = drained(buffer.ended(reason), count);
            &&& left.items == buffer.items.skip(count as int)
            &&& left.close_reason == Some(reason)
            &&& left.abandoned() == left
        }),
    decreases count,
{
    let left = drained(buffer.ended(reason), count);
    if count > 0 {
        law_end_comes_last(buffer, reason, (count - 1) as nat);
    }
    assert(left.items =~= buffer.items.skip(count as int));
}

/// Dequeuing waits only where there is nothing to hand out: whatever happened to the
/// buffer before, as long as an item was stored that was not taken, dequeuing gives
/// the oldest such item, whether or not the stream has ended. Only where every item
/// was taken does it wait, and only until the stream has ended.
pub proof fn law_oldest_item_is_handed_out_at_once<Content>(
    cfg: ChannelReceiverBufferCfg,
    steps: Seq<BufferStep<Content>>,
)
    ensures
        ({
            let flow = flow_after_all(cfg, steps);
            let next = flow.buffer.next();
            &&& flow.taken.len() <= flow.stored.len()
            &&& flow.taken.len() < flow.stored.len() ==> next == Some(
                Some(Ok::<Content, ChannelReceiveError>(flow.stored[flow.taken.len() as int])),
            )
            &&& next is None <==> flow.taken.len() == flow.stored.len()
                && flow.buffer.close_reason is None
        }),
{
    law_first_in_first_out(cfg, steps);
    let flow = flow_after_all(cfg, steps);
    if flow.taken.len() < flow.stored.len() {
        assert((flow.taken + flow.buffer.items)[flow.taken.len() as int] == flow.buffer.items[0]);
    }
}

/// What dequeuing gives: the oldest item if there is one. Of an empty buffer, the
/// end if its stream was finished, the error if its enqueuer went away, and a wait
/// if neither.
pub proof fn law_dequeuing<Content>(buffer: ReceiveBuffer<Content>)
    ensures
        buffer.items.len() > 0 ==> buffer.next() == Some(
            Some(Ok::<Content, ChannelReceiveError>(buffer.items.first())),
        ),
        buffer.next() is None <==> buffer.items.len() == 0 && buffer.close_reason is None,
        buffer.next() == Some(None::<Result<Content, ChannelReceiveError>>) <==> buffer.items.len()
            == 0 && buffer.close_reason == Some(ChannelReceiverBufferCloseReason::Closed),
        buffer.next() == Some(
            Some(Err::<Content, ChannelReceiveError>(ChannelReceiveError::MultiplexerError)),
        ) <==> buffer.items.len() == 0 && buffer.close_reason == Some(
            ChannelReceiverBufferCloseReason::Dropped,
        ),
        ({
            let after = buffer.after_next();
            &&& buffer.items.len() > 0 ==> seq![buffer.items[0]] + after.items == buffer.items
            &&& buffer.items.len() > 0 ==> after.item_dequeued is None
            &&& buffer.items.len() == 0 ==> after == buffer
            &&& after.cfg == buffer.cfg
            &&& after.close_reason == buffer.close_reason
            &&& after.item_enqueued == buffer.item_enqueued
        }),
        buffer.items.len() > 0 ==> buffer.after_next() == buffer.taken(),
{
    if buffer.items.len() > 0 {
        assert(seq![buffer.items[0]] + buffer.after_next().items =~= buffer.items);
    }
}

/// What enqueuing does: there is room below the block length, the item comes behind
/// all others, and nothing else changes but that a waiting dequeuer is let go of.
pub proof fn law_enqueuing<Content>(buffer: ReceiveBuffer<Content>, item: Content)
    ensures
        buffer.full() <==> buffer.items.len() >= buffer.cfg.block_length,
        ({
            let after = buffer.stored(item);
            &&& after.items == buffer.items + seq![item]
            &&& after.item_enqueued is None
            &&& after.item_dequeued == buffer.item_dequeued
            &&& after.cfg == buffer.cfg
            &&& after.close_reason == buffer.close_reason
        }),
{
    assert(buffer.stored(item).items =~= buffer.items + seq![item]);
}

/// When flow control speaks: storing an item asks for a pause exactly when it brings
/// the buffer from one below to its pause length; taking one gives notice, for the
/// port of the buffer, exactly when it brings the buffer from one above to its resume
/// length; and the sender is resumed exactly at or below the resume length.
pub proof fn law_flow_control_speaks_at_its_lengths<Content>(
    buffer: ReceiveBuffer<Content>,
    item: Content,
)
    ensures
        buffer.stored(item).at_pause_length() <==> buffer.items.len() + 1
            == buffer.cfg.pause_length,
        buffer.notice() is Some <==> buffer.items.len() == buffer.cfg.resume_length + 1,
        buffer.notice() matches Some(msg) ==> msg == (
        ChannelMsg::<Content>::ReceiveBufferReachedResumeLength {
            local_port: buffer.cfg.local_port,
        }),
        buffer.resumeable() <==> buffer.items.len() <= buffer.cfg.resume_length,
        forall|asked: bool, msg: MultiplexMsg<Content>| #[trigger]
            if_asked(asked, msg) == (if asked {
                Some(msg)
            } else {
                None
            }),
        forall|outcome: Enqueued<Content>| #[trigger]
            outcome.asks_to_pause() <==> outcome == (Enqueued::<Content>::Stored { pause: true }),
{
}

/// What the end of a stream does: the reason is kept and a waiting dequeuer is let go
/// of; the items stay. Where the stream has ended, its enqueuer can go away without
/// effect.
pub proof fn law_ending<Content>(
    buffer: ReceiveBuffer<Content>,
    reason: ChannelReceiverBufferCloseReason,
)
    ensures
        ({
            let ended = buffer.ended(reason);
            &&& ended.close_reason == Some(reason)
            &&& ended.items == buffer.items
            &&& ended.cfg == buffer.cfg
            &&& ended.item_enqueued is None
            &&& ended.item_dequeued == buffer.item_dequeued
        }),
        buffer.close_reason is Some ==> buffer.abandoned() == buffer,
        buffer.close_reason is None ==> {
            let gone = buffer.abandoned();
            &&& gone.close_reason == Some(ChannelReceiverBufferCloseReason::Dropped)
            &&& gone.items == buffer.items
            &&& gone.cfg == buffer.cfg
            &&& gone.item_enqueued is None
            &&& gone.item_dequeued == buffer.item_dequeued
        },
{
}

/// A configuration makes a buffer exactly if its lengths are in order, and the buffer
/// is empty and open, and nobody waits.
pub proof fn law_new_buffer<Content>(cfg: ChannelReceiverBufferCfg)
    ensures
        cfg.valid() <==> 0 < cfg.resume_length && cfg.resume_length < cfg.pause_length
            && cfg.pause_length < cfg.block_length,
        ({
            let buffer = ReceiveBuffer::<Content>::initial(cfg);
            &&& buffer.cfg == cfg
            &&& buffer.items.len() == 0
            &&& buffer.close_reason is None
            &&& buffer.item_enqueued is None
            &&& buffer.item_dequeued is None
        }),
{
}

/// A new buffer has room for as many items as its block length says, and for no more:
/// of items that are enqueued one after the other, with none taken, exactly the first so
/// many are stored.
pub proof fn law_block_length_many_items_fit<Content>(
    cfg: ChannelReceiverBufferCfg,
    items: Seq<Content>,
    steps: Seq<BufferStep<Content>>,
)
    requires
        steps.len() == items.len(),
        forall|i: int|
            0 <= i < steps.len() ==> #[trigger] steps[i] == BufferStep::Enqueue(items[i]),
    ensures
        flow_after_all(cfg, steps).stored == (if items.len() <= cfg.block_length {
            items
        } else {
            items.take(cfg.block_length as int)
        }),
        flow_after_all(cfg, steps).taken.len() == 0,
    decreases steps.len(),
{
    let stored = flow_after_all(cfg, steps).stored;
    if steps.len() > 0 {
        let (before, n) = (steps.drop_last(), (steps.len() - 1) as int);
        assert forall|i: int| 0 <= i < before.len() implies #[trigger] before[i]
            == BufferStep::Enqueue(items.drop_last()[i]) by {
            assert(before[i] == steps[i]);
        }
        law_block_length_many_items_fit(cfg, items.drop_last(), before);
        law_first_in_first_out(cfg, before);
        law_length_bounded(cfg, before);
        assert(steps[n] == steps.last());
    }
    assert(stored =~= if items.len() <= cfg.block_length {
        items
    } else {
        items.take(cfg.block_length as int)
    });
}

} // verus!

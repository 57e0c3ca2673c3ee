//! The receive buffer of a channel of the multiplexor.

use super::message::{ChannelId, Msg, MultiplexPack};
use crate::external::{wake_channel, wakes};
use crate::receive_buffer::{ChannelReceiverBufferCfg, ReceiveBuffer};
use futures::channel::oneshot;
use std::collections::VecDeque;
use vstd::prelude::*;

verus! {

/// What became of an item that was to be enqueued.
pub enum BufferStep<Item, IntSer> {
    /// It is in the buffer. What is in `flow_control` is to be sent.
    Stored { flow_control: Option<MultiplexPack<Msg<IntSer>>> },
    /// There is no room. Try again with the same item once `room` resolves.
    Full { item: Item, room: oneshot::Receiver<()> },
}

/// Buffers what a channel has received, and pauses the sender when it grows long.
pub struct ChannelReceiverBuffer<Item> {
    channel: ChannelId,
    buffer: VecDeque<Item>,
    item_enqueued: Option<oneshot::Sender<()>>,
    item_dequeued: Option<oneshot::Sender<()>>,
    resume_length: usize,
    pause_length: usize,
    block_length: usize,
}

impl<Item> View for ChannelReceiverBuffer<Item> {
    type V = ReceiveBuffer<Item>;

    closed spec fn view(&self) -> ReceiveBuffer<Item> {
        ReceiveBuffer {
            cfg: ChannelReceiverBufferCfg {
                resume_length: self.resume_length,
                pause_length: self.pause_length,
                block_length: self.block_length,
                local_port: self.channel,
            },
            items: self.buffer@,
            close_reason: None,
            item_enqueued: self.item_enqueued,
            item_dequeued: self.item_dequeued,
        }
    }
}

impl<Item> ChannelReceiverBuffer<Item> {
    /// Creates the buffer of a channel.
    pub fn new(
        channel: ChannelId,
        resume_length: usize,
        pause_length: usize,
        block_length: usize,
    ) -> (buffer: ChannelReceiverBuffer<Item>)
        ensures
            buffer@ == ReceiveBuffer::<Item>::initial(
                ChannelReceiverBufferCfg {
                    resume_length,
                    pause_length,
                    block_length,
                    local_port: channel,
                },
            ),
    {
        ChannelReceiverBuffer {
            channel,
            buffer: VecDeque::new(),
            item_enqueued: None,
            item_dequeued: None,
            resume_length,
            pause_length,
            block_length,
        }
    }

    /// Enqueues an item, unless the block length has been reached. The sender is
    /// to be paused when the pause length is reached by that. Wakes the dequeuer
    /// that waits for an item.
    pub fn enqueue<IntSer>(&mut self, item: Item) -> (step: BufferStep<Item, IntSer>)
        ensures
            match step {
                BufferStep::Stored { flow_control } => {
                    &&& !old(self)@.full()
                    &&& final(self)@ == old(self)@.stored(item)
                    &&& flow_control == (if final(self)@.at_pause_length() {
                        Some(
                            MultiplexPack {
                                channel: old(self)@.cfg.local_port,
                                content: Msg::<IntSer>::Pause,
                            },
                        )
                    } else {
                        None
                    })
                },
                BufferStep::Full { item: back, room } => {
                    &&& old(self)@.full()
                    &&& back == item
                    &&& final(self)@.item_dequeued matches Some(tx) && wakes(tx, room)
                    &&& final(self)@ == (ReceiveBuffer {
                        item_dequeued: final(self)@.item_dequeued,
                        ..old(self)@
                    })
                },
            },
    {
        if self.buffer.len() >= self.block_length {
            let (tx, rx) = wake_channel();
            self.item_dequeued = Some(tx);
            return BufferStep::Full { item, room: rx };
        }

        self.buffer.push_back(item);
        if let Some(tx) = self.item_enqueued.take() {
            let _ = tx.send(());
        }

        let flow_control = if self.buffer.len() == self.pause_length {
            Some(MultiplexPack { channel: self.channel, content: Msg::Pause })
        } else {
            None
        };
        BufferStep::Stored { flow_control }
    }
}

} // verus!

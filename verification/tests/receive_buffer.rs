use futures::channel::oneshot;
use multiplex::message::{ChannelMsg, ChannelReceiveError, MultiplexMsg};
use multiplex::receive_buffer::{
    ChannelReceiverBufferCfg, ChannelReceiverBufferState, Dequeued, Enqueued,
};

fn buffer() -> ChannelReceiverBufferState<u32> {
    ChannelReceiverBufferCfg { resume_length: 2, pause_length: 4, block_length: 8, local_port: 17 }
        .instantiate()
}

fn store(buffer: &mut ChannelReceiverBufferState<u32>, item: u32) -> bool {
    match buffer.enqueue(item) {
        Enqueued::Stored { pause } => pause,
        Enqueued::Full { .. } => panic!("no room"),
    }
}

fn take(buffer: &mut ChannelReceiverBufferState<u32>) -> (u32, bool) {
    match buffer.dequeue() {
        Dequeued::Item { item, notify } => match notify {
            None => (item, false),
            Some(ChannelMsg::ReceiveBufferReachedResumeLength { local_port }) => {
                assert_eq!(local_port, 17);
                (item, true)
            }
            Some(_) => panic!("wrong notification"),
        },
        _ => panic!("no item"),
    }
}

fn wait_for_item(buffer: &mut ChannelReceiverBufferState<u32>) -> oneshot::Receiver<()> {
    match buffer.dequeue() {
        Dequeued::Wait(rx) => rx,
        _ => panic!("must wait"),
    }
}

#[test]
fn items_come_out_in_order() {
    let mut buffer = buffer();
    for i in 0..8 {
        store(&mut buffer, i);
    }
    for i in 0..5 {
        assert_eq!(take(&mut buffer).0, i);
    }
    store(&mut buffer, 100);
    for i in [5, 6, 7, 100] {
        assert_eq!(take(&mut buffer).0, i);
    }
}

#[test]
fn pause_is_signalled_when_length_is_reached_from_below() {
    let mut buffer = buffer();
    let signals: Vec<bool> = (0..8).map(|i| store(&mut buffer, i)).collect();
    assert_eq!(signals, vec![false, false, false, true, false, false, false, false]);
}

#[test]
fn resume_is_signalled_when_length_is_reached_from_above() {
    let mut buffer = buffer();
    for i in 0..6 {
        store(&mut buffer, i);
    }
    assert!(!buffer.resumeable());
    let signals: Vec<bool> = (0..6).map(|_| take(&mut buffer).1).collect();
    assert_eq!(signals, vec![false, false, false, true, false, false]);
    assert!(buffer.resumeable());
}

#[test]
fn resumeable_at_and_below_resume_length() {
    let mut buffer = buffer();
    assert!(buffer.resumeable());
    store(&mut buffer, 1);
    store(&mut buffer, 2);
    assert!(buffer.resumeable());
    store(&mut buffer, 3);
    assert!(!buffer.resumeable());
}

#[test]
fn full_buffer_gives_item_back_and_wakes_when_there_is_room() {
    let mut buffer = buffer();
    for i in 0..8 {
        store(&mut buffer, i);
    }
    let mut room = match buffer.enqueue(42) {
        Enqueued::Full { item, room } => {
            assert_eq!(item, 42);
            room
        }
        Enqueued::Stored { .. } => panic!("there is no room"),
    };
    assert_eq!(room.try_recv(), Ok(None));
    assert_eq!(take(&mut buffer).0, 0);
    assert_eq!(room.try_recv(), Ok(Some(())));
    assert!(!store(&mut buffer, 42));
    for i in [1, 2, 3, 4, 5, 6, 7, 42] {
        assert_eq!(take(&mut buffer).0, i);
    }
}

#[test]
fn dequeuer_is_woken_by_item() {
    let mut buffer = buffer();
    let mut rx = wait_for_item(&mut buffer);
    assert_eq!(rx.try_recv(), Ok(None));
    store(&mut buffer, 5);
    assert_eq!(rx.try_recv(), Ok(Some(())));
    assert_eq!(take(&mut buffer).0, 5);
}

#[test]
fn closed_buffer_drains_before_it_is_finished() {
    let mut buffer = buffer();
    store(&mut buffer, 1);
    store(&mut buffer, 2);
    buffer.close();
    buffer.dropped();
    assert_eq!(take(&mut buffer).0, 1);
    assert_eq!(take(&mut buffer).0, 2);
    assert!(matches!(buffer.dequeue(), Dequeued::Finished));
    assert!(matches!(buffer.dequeue(), Dequeued::Finished));
}

#[test]
fn abandoned_buffer_drains_before_it_fails() {
    let mut buffer = buffer();
    store(&mut buffer, 1);
    buffer.dropped();
    assert_eq!(take(&mut buffer).0, 1);
    match buffer.dequeue() {
        Dequeued::Failed(error) => assert_eq!(error, ChannelReceiveError::MultiplexerError),
        _ => panic!("must fail"),
    }
}

#[test]
fn dequeuer_is_woken_by_the_end() {
    let mut closed = buffer();
    let mut rx = wait_for_item(&mut closed);
    closed.close();
    assert_eq!(rx.try_recv(), Ok(Some(())));

    let mut abandoned = buffer();
    let mut rx = wait_for_item(&mut abandoned);
    abandoned.dropped();
    assert_eq!(rx.try_recv(), Ok(Some(())));
}

#[test]
fn flow_control_messages_are_sent_when_asked_for() {
    let mut buffer = buffer();
    let mut paused = Vec::new();
    for i in 0..6 {
        let outcome = buffer.enqueue(i);
        if let Some(MultiplexMsg::Pause { port: 9 }) =
            outcome.pause_message(MultiplexMsg::Pause { port: 9 })
        {
            paused.push(i);
        }
        assert!(i < 2 || buffer.resume_message(MultiplexMsg::Resume { port: 9 }).is_none());
    }
    assert_eq!(paused, vec![3]);
    for _ in 0..4 {
        take(&mut buffer);
    }
    assert!(matches!(
        buffer.resume_message(MultiplexMsg::Resume { port: 9 }),
        Some(MultiplexMsg::Resume { port: 9 })
    ));
}

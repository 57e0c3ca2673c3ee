use multiplex::channel::{
    ChannelData, ChannelReceiver, ChannelSender, Prepared, Received, RemoteConnectToServiceRequest,
};
use multiplex::message::{ChannelMsg, ChannelReceiveError};
use multiplex::receive_buffer::{ChannelReceiverBufferCfg, ChannelReceiverBufferState};
use multiplex::send_lock::channel_send_lock;

#[test]
fn ends_of_a_channel_carry_its_ports() {
    let (sender, receiver) = ChannelData { local_port: 4, remote_port: 5 }.instantiate();
    assert_eq!((sender.local_port, sender.remote_port), (4, 5));
    assert_eq!((receiver.local_port, receiver.remote_port, receiver.closed), (4, 5, false));
    assert!(matches!(sender.dropped::<u8>(), ChannelMsg::SenderDropped { local_port: 4 }));
}

#[test]
fn receiver_that_is_closed_ends_gracefully_and_once() {
    let mut receiver = ChannelReceiver::new(4, 5);
    assert!(matches!(
        receiver.close::<u8>(),
        Some(ChannelMsg::ReceiverClosed { local_port: 4, gracefully: true })
    ));
    assert!(receiver.close::<u8>().is_none());
    assert!(receiver.dropped::<u8>().is_none());
}

#[test]
fn receiver_that_is_dropped_does_not_end_gracefully() {
    let receiver = ChannelReceiver::new(4, 5);
    assert!(matches!(
        receiver.dropped::<u8>(),
        Some(ChannelMsg::ReceiverClosed { local_port: 4, gracefully: false })
    ));
}

#[test]
fn accepted_request_is_answered_once() {
    let mut request =
        RemoteConnectToServiceRequest::new(ChannelData { local_port: 8, remote_port: 2 });
    let (msg, sender, receiver) = request.accept::<u8>();
    assert!(matches!(msg, ChannelMsg::Accepted { local_port: 8 }));
    assert_eq!((sender.local_port, sender.remote_port), (8, 2));
    assert_eq!((receiver.local_port, receiver.remote_port), (8, 2));
    assert!(request.dropped::<u8>().is_none());
}

#[test]
fn rejected_request_is_answered_once_with_reason() {
    let mut request =
        RemoteConnectToServiceRequest::new(ChannelData { local_port: 8, remote_port: 2 });
    match request.reject(Some("busy")) {
        ChannelMsg::Rejected { local_port, reason } => {
            assert_eq!((local_port, reason), (8, Some("busy")))
        }
        _ => panic!("must be rejected"),
    }
    assert!(request.dropped::<u8>().is_none());
}

#[test]
fn dropped_request_is_rejected() {
    let mut request =
        RemoteConnectToServiceRequest::new(ChannelData { local_port: 8, remote_port: 2 });
    match request.dropped::<u8>() {
        Some(ChannelMsg::Rejected { local_port, reason }) => {
            assert_eq!((local_port, reason), (8, None))
        }
        _ => panic!("must be rejected"),
    }
    assert!(request.dropped::<u8>().is_none());
}

fn filled_buffer(items: &[u32]) -> ChannelReceiverBufferState<u32> {
    let cfg = ChannelReceiverBufferCfg {
        resume_length: 1,
        pause_length: 4,
        block_length: 8,
        local_port: 4,
    };
    let mut buffer = cfg.instantiate();
    for item in items {
        buffer.enqueue(*item);
    }
    buffer
}

#[test]
fn stream_yields_items_and_ends_for_good() {
    let mut receiver = ChannelReceiver::new(4, 5);
    let mut buffer = filled_buffer(&[7, 8]);
    buffer.close();
    assert!(matches!(
        receiver.poll_next(&mut buffer),
        Received::Item {
            item: Ok(7),
            notify: Some(ChannelMsg::ReceiveBufferReachedResumeLength { local_port: 4 })
        }
    ));
    assert!(matches!(
        receiver.poll_next(&mut buffer),
        Received::Item { item: Ok(8), notify: None }
    ));
    assert!(!receiver.ended);
    assert!(matches!(receiver.poll_next(&mut buffer), Received::End));
    assert!(receiver.ended);
    // Nothing is read any more once the end has been read.
    let mut other = filled_buffer(&[9]);
    assert!(matches!(receiver.poll_next(&mut other), Received::End));
    assert!(matches!(
        ChannelReceiver::new(4, 5).poll_next(&mut other),
        Received::Item { item: Ok(9), .. }
    ));
}

#[test]
fn stream_yields_the_error_of_an_abandoned_buffer() {
    let mut receiver = ChannelReceiver::new(4, 5);
    let mut buffer = filled_buffer(&[7]);
    buffer.dropped();
    assert!(matches!(receiver.poll_next(&mut buffer), Received::Item { item: Ok(7), .. }));
    for _ in 0..2 {
        assert!(matches!(
            receiver.poll_next(&mut buffer),
            Received::Item { item: Err(ChannelReceiveError::MultiplexerError), notify: None }
        ));
    }
}

#[test]
fn stream_waits_for_an_item() {
    let mut receiver = ChannelReceiver::new(4, 5);
    let mut buffer = filled_buffer(&[]);
    match receiver.poll_next(&mut buffer) {
        Received::Wait(mut rx) => {
            assert_eq!(rx.try_recv(), Ok(None));
            buffer.enqueue(3);
            assert_eq!(rx.try_recv(), Ok(Some(())));
        }
        _ => panic!("must wait"),
    }
    assert!(matches!(receiver.poll_next(&mut buffer), Received::Item { item: Ok(3), .. }));
}

#[test]
fn sender_tells_its_items_in_order_and_then_its_end() {
    let sender = ChannelSender::new(4, 5);
    let mut lock = channel_send_lock();
    let mut told = Vec::new();
    for item in 0..6 {
        if item == 2 {
            lock.pause();
        }
        if item == 4 {
            lock.resume();
        }
        if let Prepared::Send(msg) = sender.prepare(&mut lock, item) {
            told.push(msg);
        }
    }
    told.push(sender.dropped());
    assert_eq!(told.len(), 5);
    for (msg, item) in told.iter().zip([0, 1, 4, 5]) {
        match msg {
            ChannelMsg::SendMsg { remote_port: 5, content } => assert_eq!(*content, item),
            _ => panic!("must be an item"),
        }
    }
    assert!(matches!(told[4], ChannelMsg::SenderDropped { local_port: 4 }));
}

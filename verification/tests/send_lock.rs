use futures::channel::mpsc;
use multiplex::channel::{ChannelSender, Prepared};
use multiplex::message::{ChannelMsg, ChannelSendError};
use multiplex::send_lock::{channel_send_lock, ChannelSendLockCloseReason, SendLockAnswer};

#[test]
fn new_lock_allows_sending() {
    let mut lock = channel_send_lock();
    assert!(matches!(lock.request(), SendLockAnswer::Allowed));
    assert!(lock.notify_tx.is_none());
}

#[test]
fn paused_lock_makes_wait_and_resume_wakes() {
    let mut lock = channel_send_lock();
    lock.pause();
    let mut rx = match lock.request() {
        SendLockAnswer::Wait(rx) => rx,
        _ => panic!("must wait"),
    };
    assert_eq!(rx.try_recv(), Ok(None));
    lock.resume();
    assert_eq!(rx.try_recv(), Ok(Some(())));
    assert!(matches!(lock.request(), SendLockAnswer::Allowed));
}

#[test]
fn later_waiter_replaces_earlier_one() {
    let mut lock = channel_send_lock();
    lock.pause();
    let mut first = match lock.request() {
        SendLockAnswer::Wait(rx) => rx,
        _ => panic!("must wait"),
    };
    let mut second = match lock.request() {
        SendLockAnswer::Wait(rx) => rx,
        _ => panic!("must wait"),
    };
    assert!(first.try_recv().is_err());
    assert_eq!(second.try_recv(), Ok(None));
    lock.resume();
    assert_eq!(second.try_recv(), Ok(Some(())));
}

#[test]
fn closed_lock_refuses_and_wakes() {
    for gracefully in [true, false] {
        let mut lock = channel_send_lock();
        lock.pause();
        let mut rx = match lock.request() {
            SendLockAnswer::Wait(rx) => rx,
            _ => panic!("must wait"),
        };
        lock.close(gracefully);
        assert_eq!(rx.try_recv(), Ok(Some(())));
        lock.dropped();
        match lock.request() {
            SendLockAnswer::Refused(error) => {
                assert_eq!(error, ChannelSendError::Closed { gracefully })
            }
            _ => panic!("must be refused"),
        }
        assert_eq!(lock.close_reason, Some(ChannelSendLockCloseReason::Closed { gracefully }));
    }
}

#[test]
fn abandoned_lock_refuses_and_wakes() {
    let mut lock = channel_send_lock();
    lock.pause();
    let mut rx = match lock.request() {
        SendLockAnswer::Wait(rx) => rx,
        _ => panic!("must wait"),
    };
    lock.dropped();
    assert_eq!(rx.try_recv(), Ok(Some(())));
    match lock.request() {
        SendLockAnswer::Refused(error) => assert_eq!(error, ChannelSendError::MultiplexerError),
        _ => panic!("must be refused"),
    }
}

#[test]
fn sender_sends_to_remote_port_under_lock() {
    let sender = ChannelSender::new(3, 9);
    let mut lock = channel_send_lock();
    match sender.prepare(&mut lock, "hello") {
        Prepared::Send(ChannelMsg::SendMsg { remote_port, content }) => {
            assert_eq!((remote_port, content), (9, "hello"))
        }
        _ => panic!("must send"),
    }
    lock.pause();
    match sender.prepare(&mut lock, "later") {
        Prepared::Wait { item, mut resumed } => {
            assert_eq!(item, "later");
            assert_eq!(resumed.try_recv(), Ok(None));
            lock.resume();
            assert_eq!(resumed.try_recv(), Ok(Some(())));
        }
        _ => panic!("must wait"),
    }
    lock.close(true);
    match sender.prepare(&mut lock, "never") {
        Prepared::Failed(error) => {
            assert_eq!(error, ChannelSendError::Closed { gracefully: true })
        }
        _ => panic!("must fail"),
    }
}

#[test]
fn disconnected_multiplexer_is_a_multiplexer_error() {
    let (mut tx, rx) = mpsc::channel::<u8>(1);
    drop(rx);
    let err = tx.try_send(1).unwrap_err().into_send_error();
    assert_eq!(
        ChannelSendError::checked_from_send_error(err.clone()),
        Some(ChannelSendError::MultiplexerError)
    );
    assert_eq!(ChannelSendError::from_send_error(err), ChannelSendError::MultiplexerError);
}

#[test]
fn full_queue_is_no_disconnect() {
    let (mut tx, _rx) = mpsc::channel::<u8>(0);
    tx.try_send(1).unwrap();
    let err = tx.try_send(2).unwrap_err().into_send_error();
    assert_eq!(ChannelSendError::checked_from_send_error(err), None);
}

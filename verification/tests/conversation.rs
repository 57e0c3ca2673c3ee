use multiplex::channel::{
    ChannelReceiver, ChannelSender, Prepared, Received, RemoteConnectToServiceRequest,
};
use multiplex::message::{ChannelMsg, ChannelSendError, MultiplexMsg};
use multiplex::ports::{
    Action, Cfg, ConnectToRemoteServiceResponse, LoopEvent, PortState, PortTable,
};
use multiplex::receive_buffer::{ChannelReceiverBufferState, Dequeued, Enqueued};
use multiplex::send_lock::{channel_send_lock, ChannelSendLockState};
use std::collections::{HashMap, VecDeque};

/// A multiplexer with its locks and buffers, and the messages under way to it.
struct Side {
    table: PortTable,
    locks: HashMap<u32, ChannelSendLockState>,
    buffers: HashMap<u32, ChannelReceiverBufferState<u32>>,
    requests: VecDeque<RemoteConnectToServiceRequest>,
    responses: VecDeque<ConnectToRemoteServiceResponse<u32>>,
    incoming: VecDeque<MultiplexMsg<u32>>,
}

impl Side {
    fn new() -> Side {
        Side {
            table: PortTable::new(Cfg { channel_rx_queue_length: 4 }),
            locks: HashMap::new(),
            buffers: HashMap::new(),
            requests: VecDeque::new(),
            responses: VecDeque::new(),
            incoming: VecDeque::new(),
        }
    }

    /// Handles one event and performs what is to be done about it.
    fn turn(&mut self, event: LoopEvent<u32, ()>, other: &mut Side) {
        let actions = match self.table.handle(event) {
            Ok(actions) => actions,
            Err(_) => panic!("the multiplexer stopped"),
        };
        for action in actions {
            match action {
                Action::Send(msg) => other.incoming.push_back(msg),
                Action::CreatePort { cfg } => {
                    self.locks.insert(cfg.local_port, channel_send_lock());
                    self.buffers.insert(cfg.local_port, cfg.instantiate());
                }
                Action::RemovePort { local_port } => {
                    self.locks.remove(&local_port);
                    self.buffers.remove(&local_port);
                }
                Action::Serve { request, .. } => self.requests.push_back(request),
                Action::Respond { response, .. } => self.responses.push_back(response),
                Action::PauseSending { local_port } => self.lock(local_port).pause(),
                Action::ResumeSending { local_port } => self.lock(local_port).resume(),
                Action::CloseSending { local_port, gracefully } => {
                    self.lock(local_port).close(gracefully)
                }
                Action::Enqueue { local_port, content, pause } => {
                    let outcome = self.buffer(local_port).enqueue(content);
                    assert!(matches!(outcome, Enqueued::Stored { .. }));
                    other.incoming.extend(outcome.pause_message(pause));
                }
                Action::ResumeIfDrained { local_port, resume } => {
                    other.incoming.extend(self.buffer(local_port).resume_message(resume));
                }
                Action::FinishBuffer { local_port } => self.buffer(local_port).close(),
                Action::DropBuffer { local_port } => self.buffer(local_port).dropped(),
            }
        }
    }

    fn lock(&mut self, port: u32) -> &mut ChannelSendLockState {
        self.locks.get_mut(&port).expect("no lock")
    }

    fn buffer(&mut self, port: u32) -> &mut ChannelReceiverBufferState<u32> {
        self.buffers.get_mut(&port).expect("no buffer")
    }

    fn say(&mut self, msg: ChannelMsg<u32>, other: &mut Side) {
        assert!(self.table.is_expected(&msg));
        self.turn(LoopEvent::ChannelMsg(msg), other);
    }

    /// Handles the oldest message under way.
    fn arrive(&mut self, other: &mut Side) -> bool {
        match self.incoming.pop_front() {
            Some(msg) => {
                self.turn(LoopEvent::ReceiveMsg(Ok(msg)), other);
                true
            }
            None => false,
        }
    }

    fn connect(&mut self, service: u32, other: &mut Side) {
        self.turn(LoopEvent::ConnectToRemoteServiceRequest { service }, other);
    }

    /// Sends an item if the lock of the channel allows it.
    fn send(&mut self, sender: &ChannelSender, item: u32, other: &mut Side) -> bool {
        match sender.prepare(self.lock(sender.local_port), item) {
            Prepared::Send(msg) => {
                self.say(msg, other);
                true
            }
            _ => false,
        }
    }

    /// Takes an item, and tells the multiplexer what there is to tell.
    fn take(&mut self, port: u32, other: &mut Side) -> Option<u32> {
        match self.buffer(port).dequeue() {
            Dequeued::Item { item, notify } => {
                if let Some(msg) = notify {
                    self.say(msg, other);
                }
                Some(item)
            }
            _ => None,
        }
    }
}

/// Lets every message under way arrive.
fn settle(left: &mut Side, right: &mut Side) {
    while left.arrive(right) || right.arrive(left) {}
}

type Ends = (ChannelSender, ChannelReceiver);

/// Opens a connection at the request of `client`.
fn open_channel(client: &mut Side, server: &mut Side) -> (Ends, Ends) {
    client.connect(1, server);
    settle(client, server);
    let mut request = server.requests.pop_front().expect("no request");
    let (msg, sender, receiver) = request.accept();
    server.say(msg, client);
    settle(client, server);
    match client.responses.pop_front() {
        Some(ConnectToRemoteServiceResponse::Accepted { sender: s, receiver: r }) => {
            ((s, r), (sender, receiver))
        }
        _ => panic!("not accepted"),
    }
}

#[test]
fn requests_from_both_sides_cross_without_protocol_error() {
    let (mut left, mut right) = (Side::new(), Side::new());
    for service in 0..5 {
        left.connect(service, &mut right);
        right.connect(service, &mut left);
    }
    settle(&mut left, &mut right);
    assert_eq!((left.requests.len(), right.requests.len()), (5, 5));
    for i in 0..5 {
        let mut of_left = right.requests.pop_front().unwrap();
        let mut of_right = left.requests.pop_front().unwrap();
        if i % 2 == 0 {
            let (msg, _, _) = of_left.accept();
            right.say(msg, &mut left);
            left.say(of_right.reject(Some(7)), &mut right);
        } else {
            right.say(of_left.reject(None), &mut left);
            let (msg, _, _) = of_right.accept();
            left.say(msg, &mut right);
        }
        left.arrive(&mut right);
    }
    settle(&mut left, &mut right);
    // Every request has been answered.
    assert_eq!((left.responses.len(), right.responses.len()), (5, 5));
    let accepted = |responses: &VecDeque<ConnectToRemoteServiceResponse<u32>>| {
        responses
            .iter()
            .filter(|r| matches!(r, ConnectToRemoteServiceResponse::Accepted { .. }))
            .count()
    };
    assert_eq!((accepted(&left.responses), accepted(&right.responses)), (3, 2));
}

#[test]
fn open_connections_are_paired_once_the_news_arrives() {
    let (mut left, mut right) = (Side::new(), Side::new());
    left.connect(1, &mut right);
    right.arrive(&mut left);
    let mut request = right.requests.pop_front().unwrap();
    let (msg, sender, _) = request.accept();
    right.say(msg, &mut left);
    // Data may follow the news at once.
    assert!(right.send(&sender, 5, &mut left));
    let (here, there) = (sender.remote_port, sender.local_port);
    assert_eq!(
        left.table.port(here).unwrap().state,
        PortState::LocalRequestingRemoteService
    );
    settle(&mut left, &mut right);
    assert_eq!(left.table.port(here).unwrap().state, PortState::Connected { remote_port: there });
    assert_eq!(right.table.port(there).unwrap().state, PortState::Connected { remote_port: here });
    assert_eq!(left.take(here, &mut right), Some(5));
}

#[test]
fn interleaved_channels_keep_their_order() {
    let (mut left, mut right) = (Side::new(), Side::new());
    let ((first, _), (_, first_end)) = open_channel(&mut left, &mut right);
    let ((second, _), (_, second_end)) = open_channel(&mut left, &mut right);
    for i in 0..3 {
        assert!(left.send(&first, i, &mut right));
        assert!(left.send(&second, 100 + i, &mut right));
        right.arrive(&mut left);
    }
    settle(&mut left, &mut right);
    for i in 0..3 {
        assert_eq!(right.take(second_end.local_port, &mut left), Some(100 + i));
    }
    for i in 0..3 {
        assert_eq!(right.take(first_end.local_port, &mut left), Some(i));
    }
    assert_eq!(right.take(first_end.local_port, &mut left), None);
}

#[test]
fn everything_sent_before_the_end_is_received() {
    let (mut left, mut right) = (Side::new(), Side::new());
    let ((sender, _), (_, mut receiver)) = open_channel(&mut left, &mut right);
    assert!(left.send(&sender, 1, &mut right));
    // A graceful end of the receiver does not throw away what is under way.
    right.say(receiver.close().unwrap(), &mut left);
    assert!(left.send(&sender, 2, &mut right));
    let (here, there) = (sender.local_port, sender.remote_port);
    left.say(sender.dropped(), &mut right);
    settle(&mut left, &mut right);
    let port = receiver.local_port;
    assert_eq!(right.take(port, &mut left), Some(1));
    assert_eq!(right.take(port, &mut left), Some(2));
    assert!(matches!(right.buffer(port).dequeue(), Dequeued::Finished));
    assert!(matches!(receiver.poll_next(right.buffer(port)), Received::End));
    let data = left.table.port(here).unwrap();
    assert!(data.tx_finished && data.tx_finished_ack);
    match ChannelSender::new(here, there).prepare(left.lock(here), 3) {
        Prepared::Failed(error) => {
            assert_eq!(error, ChannelSendError::Closed { gracefully: true })
        }
        _ => panic!("the channel is closed"),
    }
}

#[test]
fn data_for_a_dropped_receiver_is_thrown_away() {
    let (mut left, mut right) = (Side::new(), Side::new());
    let ((sender, _), (_, receiver)) = open_channel(&mut left, &mut right);
    assert!(left.send(&sender, 1, &mut right));
    settle(&mut left, &mut right);
    right.say(receiver.dropped().unwrap(), &mut left);
    assert!(left.send(&sender, 2, &mut right));
    settle(&mut left, &mut right);
    let port = receiver.local_port;
    assert_eq!(right.take(port, &mut left), Some(1));
    assert!(matches!(right.buffer(port).dequeue(), Dequeued::Failed(_)));
}

#[test]
fn paused_sender_is_resumed_when_the_receiver_catches_up() {
    let (mut left, mut right) = (Side::new(), Side::new());
    let ((sender, _), (_, receiver)) = open_channel(&mut left, &mut right);
    let port = receiver.local_port;
    let mut sent = 0;
    while left.send(&sender, sent, &mut right) {
        sent += 1;
        settle(&mut left, &mut right);
    }
    // The queue length at which the sender is paused.
    assert_eq!(sent, 4);
    // Data that was under way when the resume length was reached fills the buffer
    // up again: the sender stays paused until it is reached once more.
    assert_eq!(right.take(port, &mut left), Some(0));
    match right.buffer(port).dequeue() {
        Dequeued::Item { item: 1, notify: Some(notice) } => {
            assert!(matches!(right.buffer(port).enqueue(4), Enqueued::Stored { pause: false }));
            right.say(notice, &mut left);
        }
        _ => panic!("the resume length is reached"),
    }
    settle(&mut left, &mut right);
    assert!(!left.send(&sender, 5, &mut right));
    assert_eq!(right.take(port, &mut left), Some(2));
    settle(&mut left, &mut right);
    assert!(left.send(&sender, 5, &mut right));
    settle(&mut left, &mut right);
    for i in 3..6 {
        assert_eq!(right.take(port, &mut left), Some(i));
    }
}

use multiplex::channel::RemoteConnectToServiceRequest;
use multiplex::message::{ChannelMsg, MultiplexMsg, MultiplexRunError};
use multiplex::ports::{
    Action, Cfg, ConnectToRemoteServiceResponse, Fault, LoopEvent, PortState, PortTable,
    ProtocolViolation, RunStep,
};

type Event = LoopEvent<&'static str, &'static str>;
type Handled = Result<Vec<Action<&'static str>>, Fault<&'static str>>;

fn table() -> PortTable {
    PortTable::new(Cfg { channel_rx_queue_length: 10 })
}

fn connect(service: u32) -> Event {
    LoopEvent::ConnectToRemoteServiceRequest { service }
}

fn received(msg: MultiplexMsg<&'static str>) -> Event {
    LoopEvent::ReceiveMsg(Ok(msg))
}

fn told(msg: ChannelMsg<&'static str>) -> Event {
    LoopEvent::ChannelMsg(msg)
}

fn on(table: &mut PortTable, event: Event) -> Handled {
    table.handle_on(event, 0)
}

fn done(table: &mut PortTable, event: Event) -> Vec<Action<&'static str>> {
    match on(table, event) {
        Ok(actions) => actions,
        Err(_) => panic!("fault"),
    }
}

fn violation(result: Handled) -> ProtocolViolation {
    match result {
        Err(Fault::Protocol(violation)) => violation,
        _ => panic!("no violation"),
    }
}

/// Opens a connection from port `c` of `client` to port `s` of `server`.
fn open(client: &mut PortTable, c: u32, server: &mut PortTable, s: u32) {
    assert!(client.handle_on(connect(1), c).is_ok());
    assert!(server.handle_on(received(MultiplexMsg::Open { service: 1, client_port: c }), s).is_ok());
    done(server, told(ChannelMsg::Accepted { local_port: s }));
    done(client, received(MultiplexMsg::Opened { client_port: c, server_port: s }));
}

fn pair() -> (PortTable, PortTable) {
    let (mut client, mut server) = (table(), table());
    open(&mut client, 11, &mut server, 22);
    (client, server)
}

#[test]
fn buffer_lengths_follow_queue_length() {
    let cfg = Cfg { channel_rx_queue_length: 10 }.receive_buffer(3);
    assert_eq!(
        (cfg.resume_length, cfg.pause_length, cfg.block_length, cfg.local_port),
        (5, 10, 20, 3)
    );
    let cfg = Cfg { channel_rx_queue_length: 2 }.receive_buffer(0);
    assert_eq!((cfg.resume_length, cfg.pause_length, cfg.block_length), (1, 2, 4));
    let cfg = Cfg { channel_rx_queue_length: 3 }.receive_buffer(0);
    assert_eq!((cfg.resume_length, cfg.pause_length, cfg.block_length), (1, 3, 6));
}

#[test]
fn accepted_connection_pairs_the_ports() {
    let (mut client, mut server) = (table(), table());

    let actions = client.handle_on(connect(77), 11).unwrap();
    assert_eq!(actions.len(), 2);
    assert!(matches!(&actions[0], Action::CreatePort { cfg } if cfg.local_port == 11
        && cfg.pause_length == 10));
    assert!(matches!(
        &actions[1],
        Action::Send(MultiplexMsg::Open { service: 77, client_port: 11 })
    ));
    assert_eq!(client.port(11).unwrap().state, PortState::LocalRequestingRemoteService);

    let actions = server
        .handle_on(received(MultiplexMsg::Open { service: 77, client_port: 11 }), 22)
        .unwrap();
    assert_eq!(actions.len(), 2);
    assert!(matches!(&actions[0], Action::CreatePort { cfg } if cfg.local_port == 22));
    match &actions[1] {
        Action::Serve { service: 77, request: RemoteConnectToServiceRequest { channel_data } } => {
            let data = channel_data.unwrap();
            assert_eq!((data.local_port, data.remote_port), (22, 11));
        }
        _ => panic!("must be served"),
    }

    let actions = done(&mut server, told(ChannelMsg::Accepted { local_port: 22 }));
    assert_eq!(actions.len(), 1);
    assert!(matches!(
        &actions[0],
        Action::Send(MultiplexMsg::Opened { client_port: 11, server_port: 22 })
    ));

    let actions =
        done(&mut client, received(MultiplexMsg::Opened { client_port: 11, server_port: 22 }));
    assert_eq!(actions.len(), 1);
    match &actions[0] {
        Action::Respond {
            local_port: 11,
            response: ConnectToRemoteServiceResponse::Accepted { sender, receiver },
        } => {
            assert_eq!((sender.local_port, sender.remote_port), (11, 22));
            assert_eq!((receiver.local_port, receiver.remote_port), (11, 22));
        }
        _ => panic!("must be accepted"),
    }
    assert_eq!(client.port(11).unwrap().remote_port(), 22);
    assert_eq!(server.port(22).unwrap().remote_port(), 11);
}

#[test]
fn refused_connection_leaves_no_trace() {
    let (mut client, mut server) = (table(), table());
    assert!(client.handle_on(connect(77), 11).is_ok());
    assert!(server.handle_on(received(MultiplexMsg::Open { service: 77, client_port: 11 }), 22).is_ok());

    let rejected = ChannelMsg::Rejected { local_port: 22, reason: Some("no") };
    let actions = done(&mut server, told(rejected));
    assert_eq!(actions.len(), 2);
    assert!(matches!(
        &actions[0],
        Action::Send(MultiplexMsg::Refused { client_port: 11, reason: Some("no") })
    ));
    assert!(matches!(&actions[1], Action::RemovePort { local_port: 22 }));
    assert!(server.port(22).is_none());

    let actions = done(&mut client, received(MultiplexMsg::Refused { client_port: 11, reason: Some("no") }));
    assert_eq!(actions.len(), 2);
    assert!(matches!(
        &actions[0],
        Action::Respond {
            local_port: 11,
            response: ConnectToRemoteServiceResponse::Rejected { reason: Some("no") }
        }
    ));
    assert!(matches!(&actions[1], Action::RemovePort { local_port: 11 }));
    assert!(client.port(11).is_none());

    // Both ports can be given out again.
    open(&mut client, 11, &mut server, 22);
}

#[test]
fn ports_are_drawn_at_random_and_unique() {
    let mut table = table();
    let mut ports = std::collections::HashSet::new();
    for service in 0..200 {
        let actions = table.handle(connect(service)).unwrap();
        match &actions[1] {
            Action::Send(MultiplexMsg::Open { service: s, client_port }) => {
                assert_eq!(*s, service);
                assert!(ports.insert(*client_port));
                assert!(table.port(*client_port).is_some());
            }
            _ => panic!("must be opened"),
        }
    }
}

#[test]
fn opened_and_refused_need_a_request() {
    let opened = |port| received(MultiplexMsg::Opened { client_port: port, server_port: 1 });
    let refused = |port| received(MultiplexMsg::Refused { client_port: port, reason: None });

    let (mut client, mut server) = pair();
    assert_eq!(violation(on(&mut client, opened(5))), ProtocolViolation::OpenedForNoPort);
    assert_eq!(violation(on(&mut client, opened(11))), ProtocolViolation::OpenedForConnectedPort);
    assert_eq!(violation(on(&mut client, refused(5))), ProtocolViolation::RefusedForNoPort);
    assert_eq!(violation(on(&mut client, refused(11))), ProtocolViolation::RefusedForConnectedPort);

    let open = received(MultiplexMsg::Open { service: 1, client_port: 9 });
    assert!(server.handle_on(open, 33).is_ok());
    assert_eq!(violation(on(&mut server, opened(33))), ProtocolViolation::OpenedForNoPort);
    assert_eq!(violation(on(&mut server, refused(33))), ProtocolViolation::RefusedForNoPort);
    assert_eq!(
        server.port(33).unwrap().state,
        PortState::RemoteRequestingLocalService { remote_port: 9 }
    );
}

#[test]
fn violations_are_put_into_words() {
    let words = |violation: ProtocolViolation| violation.message();
    assert_eq!(words(ProtocolViolation::OpenedForNoPort), "Service opened response for no port");
    assert_eq!(
        words(ProtocolViolation::OpenedForConnectedPort),
        "Service opened response for connected port"
    );
    assert_eq!(words(ProtocolViolation::RefusedForNoPort), "Service refused response for no port");
    assert_eq!(
        words(ProtocolViolation::RefusedForConnectedPort),
        "Service refused response for connected port"
    );
    assert_eq!(
        words(ProtocolViolation::PortNotConnected),
        "Message for port that is not connected"
    );
}

#[test]
fn messages_for_unconnected_ports_are_violations() {
    let mut table = table();
    assert!(table.handle_on(connect(1), 11).is_ok());
    for port in [5, 11] {
        for msg in [
            MultiplexMsg::Finish { port },
            MultiplexMsg::FinishAck { port },
            MultiplexMsg::Hangup { port, graceful: true },
            MultiplexMsg::Data { port, content: "x" },
        ] {
            assert_eq!(
                violation(on(&mut table, received(msg))),
                ProtocolViolation::PortNotConnected
            );
        }
    }
}

#[test]
fn flow_control_of_unconnected_ports_is_ignored() {
    let mut table = table();
    assert!(table.handle_on(connect(1), 11).is_ok());
    for port in [5, 11] {
        assert!(done(&mut table, received(MultiplexMsg::Pause { port })).is_empty());
        assert!(done(&mut table, received(MultiplexMsg::Resume { port })).is_empty());
    }
    assert!(table.port(5).is_none());
    assert_eq!(table.port(11).unwrap().state, PortState::LocalRequestingRemoteService);
}

#[test]
fn answers_for_ports_of_the_serving_side_are_for_no_port() {
    let (mut client, mut server) = pair();
    assert!(client.port(11).unwrap().client);
    assert!(!server.port(22).unwrap().client);
    let opened = |port| received(MultiplexMsg::Opened { client_port: port, server_port: 1 });
    let refused = |port| received(MultiplexMsg::Refused { client_port: port, reason: None });
    assert_eq!(violation(on(&mut client, opened(11))), ProtocolViolation::OpenedForConnectedPort);
    assert_eq!(violation(on(&mut client, refused(11))), ProtocolViolation::RefusedForConnectedPort);
    assert_eq!(violation(on(&mut server, opened(22))), ProtocolViolation::OpenedForNoPort);
    assert_eq!(violation(on(&mut server, refused(22))), ProtocolViolation::RefusedForNoPort);
}

#[test]
fn failure_of_the_link_to_take_a_message_ends_the_loop() {
    let table = table();
    let step: RunStep<&str, &str, ()> = table.sent(Ok(()));
    assert!(matches!(step, RunStep::Perform(actions) if actions.is_empty()));
    let step: RunStep<&str, &str, ()> = table.sent(Err("broken"));
    assert!(matches!(step, RunStep::Return(Err(MultiplexRunError::SendError("broken")))));
}

#[test]
fn answer_is_a_violation_once_the_request_is_answered() {
    let mut table = table();
    let refused = || received(MultiplexMsg::Refused { client_port: 11, reason: None });
    assert_eq!(violation(on(&mut table, refused())), ProtocolViolation::RefusedForNoPort);
    assert!(table.handle_on(connect(1), 11).is_ok());
    assert!(on(&mut table, refused()).is_ok());
    assert_eq!(violation(on(&mut table, refused())), ProtocolViolation::RefusedForNoPort);
}

#[test]
fn data_is_sent_and_put_into_the_buffer_of_the_other_side() {
    let (mut client, mut server) = pair();
    for content in ["a", "b", "c"] {
        let sent = done(&mut client, told(ChannelMsg::SendMsg { remote_port: 22, content }));
        assert_eq!(sent.len(), 1);
        let msg = match sent.into_iter().next() {
            Some(Action::Send(msg)) => msg,
            _ => panic!("must be sent"),
        };
        assert!(matches!(&msg, MultiplexMsg::Data { port: 22, content: c } if *c == content));
        let actions = done(&mut server, received(msg));
        assert_eq!(actions.len(), 1);
        assert!(matches!(
            &actions[0],
            Action::Enqueue { local_port: 22, content: c, pause: MultiplexMsg::Pause { port: 11 } }
                if *c == content
        ));
    }
}

#[test]
fn connections_do_not_disturb_each_other() {
    let (mut client, mut server) = pair();
    open(&mut client, 12, &mut server, 23);
    let before = client.port(12).unwrap();
    done(&mut client, told(ChannelMsg::SenderDropped { local_port: 11 }));
    done(&mut client, received(MultiplexMsg::Hangup { port: 11, graceful: false }));
    done(&mut client, received(MultiplexMsg::Finish { port: 11 }));
    assert_eq!(client.port(12).unwrap(), before);
    assert_eq!(client.port(11).unwrap().remote_port(), 22);
}

#[test]
fn flow_control_reaches_the_sender() {
    let (mut client, mut server) = pair();
    let reached = ChannelMsg::ReceiveBufferReachedResumeLength { local_port: 22 };
    let actions = done(&mut server, told(reached));
    assert_eq!(actions.len(), 1);
    assert!(matches!(
        &actions[0],
        Action::ResumeIfDrained { local_port: 22, resume: MultiplexMsg::Resume { port: 11 } }
    ));
    let actions = done(&mut client, received(MultiplexMsg::Pause { port: 11 }));
    assert!(matches!(actions.as_slice(), [Action::PauseSending { local_port: 11 }]));
    let actions = done(&mut client, received(MultiplexMsg::Resume { port: 11 }));
    assert!(matches!(actions.as_slice(), [Action::ResumeSending { local_port: 11 }]));
}

#[test]
fn end_of_sender_is_acknowledged() {
    let (mut client, mut server) = pair();
    let actions = done(&mut client, told(ChannelMsg::SenderDropped { local_port: 11 }));
    assert!(matches!(actions.as_slice(), [Action::Send(MultiplexMsg::Finish { port: 22 })]));
    assert!(client.port(11).unwrap().tx_finished);
    assert!(!client.port(11).unwrap().tx_finished_ack);

    let actions = done(&mut server, received(MultiplexMsg::Finish { port: 22 }));
    assert!(matches!(
        actions.as_slice(),
        [
            Action::FinishBuffer { local_port: 22 },
            Action::Send(MultiplexMsg::FinishAck { port: 11 })
        ]
    ));
    assert!(server.port(22).unwrap().rx_finished);

    // A second Finish finds no buffer to close.
    let actions = done(&mut server, received(MultiplexMsg::Finish { port: 22 }));
    assert!(matches!(actions.as_slice(), [Action::Send(MultiplexMsg::FinishAck { port: 11 })]));

    let actions = done(&mut client, received(MultiplexMsg::FinishAck { port: 11 }));
    assert!(actions.is_empty());
    assert!(client.port(11).unwrap().tx_finished_ack);
}

#[test]
fn graceful_end_of_receiver_closes_sender_and_keeps_data_under_way() {
    let (mut client, mut server) = pair();
    let closed = ChannelMsg::ReceiverClosed { local_port: 22, gracefully: true };
    let actions = done(&mut server, told(closed));
    assert!(matches!(
        actions.as_slice(),
        [Action::Send(MultiplexMsg::Hangup { port: 11, graceful: true })]
    ));
    let actions = done(&mut client, received(MultiplexMsg::Hangup { port: 11, graceful: true }));
    assert!(matches!(
        actions.as_slice(),
        [Action::CloseSending { local_port: 11, gracefully: true }]
    ));
    let actions = done(&mut server, received(MultiplexMsg::Data { port: 22, content: "late" }));
    assert!(matches!(
        actions.as_slice(),
        [Action::Enqueue { local_port: 22, content: "late", .. }]
    ));
}

#[test]
fn abrupt_end_of_receiver_drops_its_buffer() {
    let (_, mut server) = pair();
    let closed = ChannelMsg::ReceiverClosed { local_port: 22, gracefully: false };
    let actions = done(&mut server, told(closed));
    assert!(matches!(
        actions.as_slice(),
        [
            Action::DropBuffer { local_port: 22 },
            Action::Send(MultiplexMsg::Hangup { port: 11, graceful: false })
        ]
    ));
    assert!(done(&mut server, received(MultiplexMsg::Data { port: 22, content: "late" }))
        .is_empty());
    let reached = ChannelMsg::ReceiveBufferReachedResumeLength { local_port: 22 };
    assert!(done(&mut server, told(reached)).is_empty());
}

#[test]
fn hung_up_port_is_not_resumed() {
    let (mut client, _) = pair();
    done(&mut client, received(MultiplexMsg::Hangup { port: 11, graceful: false }));
    assert!(!client.port(11).unwrap().tx_lock);
    assert!(done(&mut client, received(MultiplexMsg::Pause { port: 11 })).is_empty());
    assert!(done(&mut client, received(MultiplexMsg::Resume { port: 11 })).is_empty());
    let again = received(MultiplexMsg::Hangup { port: 11, graceful: true });
    assert!(done(&mut client, again).is_empty());
}

#[test]
fn channel_messages_are_expected_only_in_their_state() {
    let (client, mut server) = pair();
    let open = received(MultiplexMsg::Open { service: 1, client_port: 9 });
    assert!(server.handle_on(open, 33).is_ok());
    for (port, connected, requested) in [(22, true, false), (33, false, true), (5, false, false)] {
        let expected = |msg: ChannelMsg<&'static str>| server.is_expected(&msg);
        assert_eq!(expected(ChannelMsg::SenderDropped { local_port: port }), connected);
        let closed = ChannelMsg::ReceiverClosed { local_port: port, gracefully: true };
        assert_eq!(expected(closed), connected);
        let reached = ChannelMsg::ReceiveBufferReachedResumeLength { local_port: port };
        assert_eq!(expected(reached), connected);
        assert_eq!(expected(ChannelMsg::Accepted { local_port: port }), requested);
        let rejected = ChannelMsg::Rejected { local_port: port, reason: None };
        assert_eq!(expected(rejected), requested);
    }
    assert!(client.is_expected(&ChannelMsg::SendMsg { remote_port: 99, content: "x" }));
}

#[test]
fn loop_ends_with_events_or_error() {
    let mut table = table();
    let step: RunStep<&str, (), &str> = table.run_step(None);
    assert!(matches!(step, RunStep::Return(Ok(()))));

    let step: RunStep<&str, (), &str> = table.run_step(Some(LoopEvent::ReceiveMsg(Err("lost"))));
    assert!(matches!(step, RunStep::Return(Err(MultiplexRunError::ReceiveError("lost")))));

    let step: RunStep<&str, (), &str> =
        table.run_step(Some(received(MultiplexMsg::Refused { client_port: 1, reason: None })));
    match step {
        RunStep::Return(Err(MultiplexRunError::ProtocolError(text))) => {
            assert_eq!(text, "Service refused response for no port")
        }
        _ => panic!("must be a protocol error"),
    }

    let step: RunStep<&str, (), &str> = table.run_step(Some(connect(3)));
    match step {
        RunStep::Perform(actions) => assert_eq!(actions.len(), 2),
        RunStep::Return(_) => panic!("must go on"),
    }
}

#[test]
fn faults_are_reported() {
    let error: MultiplexRunError<(), &str> = Fault::PortsExhausted.into_run_error();
    assert!(matches!(error, MultiplexRunError::PortsExhausted));
    let error: MultiplexRunError<(), &str> = Fault::ReceiveError("lost").into_run_error();
    assert!(matches!(error, MultiplexRunError::ReceiveError("lost")));
}

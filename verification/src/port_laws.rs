//! What each event does to the ports of a multiplexer and what is done about it, told
//! by what is known of the port and what the event says.

use crate::channel::{ChannelData, ChannelReceiver, ChannelSender, RemoteConnectToServiceRequest};
use crate::laws::possible;
use crate::message::{ChannelMsg, MultiplexMsg, MultiplexRunError};
use crate::ports::{
    event_expected, needs_port, reacts, Action, Cfg, ConnectToRemoteServiceResponse, Fault,
    LoopEvent, PortData, PortMessage, PortState, Ports, ProtocolViolation, Reaction,
};
use crate::receive_buffer::ChannelReceiverBufferCfg;
use vstd::prelude::*;

verus! {

/// The message has arrived.
pub open spec fn arrives<Content, TransportStreamError>(
    event: LoopEvent<Content, TransportStreamError>,
    msg: MultiplexMsg<Content>,
) -> bool {
    event == LoopEvent::<Content, TransportStreamError>::ReceiveMsg(Ok(msg))
}

/// A local channel or request says this.
pub open spec fn says<Content, TransportStreamError>(
    event: LoopEvent<Content, TransportStreamError>,
    msg: ChannelMsg<Content>,
) -> bool {
    event == LoopEvent::<Content, TransportStreamError>::ChannelMsg(msg)
}

/// Which ports there are: one comes exactly where a service is asked for, by this side
/// or the other, and it is the one that was allocated; one goes exactly where the
/// request on it is rejected here or refused there.
pub proof fn law_ports_come_and_go<Content, TransportStreamError>(
    ports: Ports,
    event: LoopEvent<Content, TransportStreamError>,
    fresh: u32,
    port: u32,
)
    requires
        possible(ports, event, fresh),
    ensures
        ports.on_event(event, fresh) matches Ok((after, _)) ==> {
            let asked = match event {
                LoopEvent::ReceiveMsg(Ok(MultiplexMsg::Open { .. })) => true,
                LoopEvent::ConnectToRemoteServiceRequest { .. } => true,
                _ => false,
            };
            let turned_down = match event {
                LoopEvent::ReceiveMsg(Ok(MultiplexMsg::Refused { client_port, .. })) => client_port
                    == port,
                LoopEvent::ChannelMsg(ChannelMsg::Rejected { local_port, .. }) => local_port
                    == port,
                _ => false,
            };
            &&& after.ports.contains_key(port) <==> (asked && fresh == port)
                || ports.ports.contains_key(port) && !turned_down
            &&& after.used.contains(port) <==> after.ports.contains_key(port)
            &&& asked && fresh == port ==> !ports.ports.contains_key(port)
        },
{
}

/// What is known of a port changes by its own events alone. Its send lock is let go of
/// exactly when Hangup arrives; its receive buffer when Finish arrives or its receiver
/// is dropped; and it is told, once and for all, that its sender is gone, that this was
/// acknowledged, and that the other side has finished.
pub proof fn law_port_changes_by_its_own_events<Content, TransportStreamError>(
    ports: Ports,
    event: LoopEvent<Content, TransportStreamError>,
    fresh: u32,
    port: u32,
)
    requires
        possible(ports, event, fresh),
        ports.ports.contains_key(port),
    ensures
        ports.on_event(event, fresh) matches Ok((after, _)) ==> after.ports.contains_key(port) ==> {
            let (before, after) = (ports.ports[port], after.ports[port]);
            let hung_up = arrives(event, MultiplexMsg::Hangup { port, graceful: true }) || arrives(
                event,
                MultiplexMsg::Hangup { port, graceful: false },
            );
            let finished = arrives(event, MultiplexMsg::Finish { port });
            let dropped = says(
                event,
                ChannelMsg::ReceiverClosed { local_port: port, gracefully: false },
            );
            &&& after.local_port == port
            &&& after.client == before.client
            &&& after.tx_lock <==> before.tx_lock && !(hung_up && before.state is Connected)
            &&& after.rx_buffer <==> before.rx_buffer && !finished && !dropped
            &&& after.tx_finished <==> before.tx_finished || says(
                event,
                ChannelMsg::SenderDropped { local_port: port },
            )
            &&& after.tx_finished_ack <==> before.tx_finished_ack || arrives(
                event,
                MultiplexMsg::FinishAck { port },
            )
            &&& after.rx_finished <==> before.rx_finished || finished
        },
{
}

/// How far the connection of a port has come changes only by the answer to the request
/// on it: accepted here, or opened there, it is connected, to the port that asked or to
/// the port that answered.
pub proof fn law_only_an_answer_connects<Content, TransportStreamError>(
    ports: Ports,
    event: LoopEvent<Content, TransportStreamError>,
    fresh: u32,
    port: u32,
)
    requires
        possible(ports, event, fresh),
        ports.ports.contains_key(port),
    ensures
        ports.on_event(event, fresh) matches Ok((after, _)) ==> after.ports.contains_key(port) ==> {
            let (before, state) = (ports.ports[port].state, after.ports[port].state);
            match event {
                LoopEvent::ChannelMsg(ChannelMsg::Accepted { local_port }) if local_port == port
                    => before matches PortState::RemoteRequestingLocalService { remote_port }
                    && state == (PortState::Connected { remote_port }),
                LoopEvent::ReceiveMsg(
                    Ok(MultiplexMsg::Opened { client_port, server_port }),
                ) if client_port == port => before is LocalRequestingRemoteService && state == (
                PortState::Connected { remote_port: server_port }),
                _ => state == before,
            }
        },
{
}

/// A port that comes, comes with its send lock and its receive buffer, and nothing has
/// happened to it. It waits for the answer of whoever was asked, and only the side that
/// asked is the client.
pub proof fn law_new_port_holds_its_lock_and_buffer<Content, TransportStreamError>(
    ports: Ports,
    event: LoopEvent<Content, TransportStreamError>,
    fresh: u32,
)
    requires
        possible(ports, event, fresh),
    ensures
        ports.on_event(event, fresh) matches Ok((after, _)) ==> {
            let port = after.ports[fresh];
            let is_new = {
                &&& port.local_port == fresh
                &&& port.tx_lock
                &&& port.rx_buffer
                &&& !port.tx_finished
                &&& !port.tx_finished_ack
                &&& !port.rx_finished
            };
            match event {
                LoopEvent::ReceiveMsg(Ok(MultiplexMsg::Open { client_port, .. })) => {
                    &&& is_new
                    &&& !port.client
                    &&& port.state == (PortState::RemoteRequestingLocalService {
                        remote_port: client_port,
                    })
                },
                LoopEvent::ConnectToRemoteServiceRequest { .. } => {
                    &&& is_new
                    &&& port.client
                    &&& port.state == PortState::LocalRequestingRemoteService
                },
                _ => true,
            }
        },
{
}

/// A connection that has just been opened obeys the other side. On the side that was
/// asked, after the request has come in and has been accepted, and on the side that
/// asked, after the answer has come in, a first Pause, Resume or Hangup for the port
/// pauses, resumes or closes its sender, and data is put into its receive buffer.
pub proof fn law_new_connection_obeys<Content, TransportStreamError>(
    client: Ports,
    server: Ports,
    service: u32,
    c: u32,
    s: u32,
    graceful: bool,
    content: Content,
    fresh: u32,
)
    requires
        client.wf() && server.wf(),
        client.used.len() < 2147483647 && !client.used.contains(c),
        server.used.len() < 2147483647 && !server.used.contains(s),
    ensures
        ({
            let client1 = client.on_connect::<Content, TransportStreamError>(service, c);
            let client2 = client1->Ok_0.0.on_opened::<Content, TransportStreamError>(c, s);
            let server1 = server.on_message::<Content, TransportStreamError>(
                MultiplexMsg::Open { service, client_port: c },
                s,
            );
            let accepted = ChannelMsg::<Content>::Accepted { local_port: s };
            let server2 = server1->Ok_0.0.on_channel_msg(accepted);
            &&& client1 is Ok && client2 is Ok && server1 is Ok
            &&& server1->Ok_0.0.expects(accepted)
            &&& obeys::<Content, TransportStreamError>(
                server2.0,
                s,
                c,
                graceful,
                content,
                fresh,
            )
            &&& obeys::<Content, TransportStreamError>(
                client2->Ok_0.0,
                c,
                s,
                graceful,
                content,
                fresh,
            )
        }),
{
}

/// The port does what the other side asks of it.
pub open spec fn obeys<Content, TransportStreamError>(
    ports: Ports,
    port: u32,
    remote_port: u32,
    graceful: bool,
    content: Content,
    fresh: u32,
) -> bool {
    let done = |msg: MultiplexMsg<Content>|
        match ports.on_message::<Content, TransportStreamError>(msg, fresh) {
            Ok((_, actions)) => Some(actions),
            Err(_) => None,
        };
    &&& done(MultiplexMsg::Pause { port }) == Some(
        seq![Action::<Content>::PauseSending { local_port: port }],
    )
    &&& done(MultiplexMsg::Resume { port }) == Some(
        seq![Action::<Content>::ResumeSending { local_port: port }],
    )
    &&& done(MultiplexMsg::Hangup { port, graceful }) == Some(
        seq![Action::<Content>::CloseSending { local_port: port, gracefully: graceful }],
    )
    &&& done(MultiplexMsg::Data { port, content }) == Some(
        seq![
            Action::Enqueue {
                local_port: port,
                content,
                pause: MultiplexMsg::Pause { port: remote_port },
            },
        ],
    )
}

/// What is done about a message for an open connection. Sending is paused, resumed or
/// closed as long as the send lock is held; data is put into the receive buffer, and
/// Finish closes it, as long as that is held; Finish is acknowledged in any case.
/// Messages go to the remote port of the connection.
pub proof fn law_messages_reach_the_connection<Content, TransportStreamError>(
    ports: Ports,
    port: u32,
    remote_port: u32,
    graceful: bool,
    content: Content,
    fresh: u32,
)
    requires
        ports.ports.contains_key(port),
        ports.ports[port].state == (PortState::Connected { remote_port }),
    ensures
        ({
            let none = Some(Seq::<Action<Content>>::empty());
            let ack = Action::<Content>::Send(MultiplexMsg::FinishAck { port: remote_port });
            let done = |msg: MultiplexMsg<Content>|
                match ports.on_message::<Content, TransportStreamError>(msg, fresh) {
                    Ok((_, actions)) => Some(actions),
                    Err(_) => None,
                };
            &&& done(MultiplexMsg::Pause { port }) == if ports.ports[port].tx_lock {
                Some(seq![Action::<Content>::PauseSending { local_port: port }])
            } else {
                none
            }
            &&& done(MultiplexMsg::Resume { port }) == if ports.ports[port].tx_lock {
                Some(seq![Action::<Content>::ResumeSending { local_port: port }])
            } else {
                none
            }
            &&& done(MultiplexMsg::Hangup { port, graceful }) == if ports.ports[port].tx_lock {
                Some(
                    seq![Action::<Content>::CloseSending { local_port: port, gracefully: graceful }],
                )
            } else {
                none
            }
            &&& done(MultiplexMsg::Finish { port }) == if ports.ports[port].rx_buffer {
                Some(seq![Action::<Content>::FinishBuffer { local_port: port }, ack])
            } else {
                Some(seq![ack])
            }
            &&& done(MultiplexMsg::FinishAck { port }) == none
            &&& done(MultiplexMsg::Data { port, content }) == if ports.ports[port].rx_buffer {
                Some(
                    seq![
                        Action::Enqueue {
                            local_port: port,
                            content,
                            pause: MultiplexMsg::Pause { port: remote_port },
                        },
                    ],
                )
            } else {
                none
            }
        }),
{
}

/// What a channel says about its connection is passed on to the remote port: its items,
/// the end of its sender, and the end of its receiver, which also lets go of the receive
/// buffer unless it is graceful. Being told of the resume length leads to a look at the
/// receive buffer, as long as that is held.
pub proof fn law_channel_is_heard<Content>(
    ports: Ports,
    port: u32,
    remote_port: u32,
    content: Content,
)
    requires
        ports.ports.contains_key(port),
        ports.ports[port].state == (PortState::Connected { remote_port }),
    ensures
        ports.on_channel_msg(ChannelMsg::SendMsg { remote_port, content }) == (
            ports,
            seq![Action::Send(MultiplexMsg::Data { port: remote_port, content })],
        ),
        ports.on_channel_msg(ChannelMsg::<Content>::SenderDropped { local_port: port }).1 == seq![
            Action::<Content>::Send(MultiplexMsg::Finish { port: remote_port }),
        ],
        ports.on_channel_msg(
            ChannelMsg::<Content>::ReceiverClosed { local_port: port, gracefully: true },
        ).1 == seq![
            Action::<Content>::Send(MultiplexMsg::Hangup { port: remote_port, graceful: true }),
        ],
        ports.on_channel_msg(
            ChannelMsg::<Content>::ReceiverClosed { local_port: port, gracefully: false },
        ).1 == seq![
            Action::<Content>::DropBuffer { local_port: port },
            Action::Send(MultiplexMsg::Hangup { port: remote_port, graceful: false }),
        ],
        ports.on_channel_msg(
            ChannelMsg::<Content>::ReceiveBufferReachedResumeLength { local_port: port },
        ).1 == if ports.ports[port].rx_buffer {
            seq![
                Action::<Content>::ResumeIfDrained {
                    local_port: port,
                    resume: MultiplexMsg::Resume { port: remote_port },
                },
            ]
        } else {
            Seq::empty()
        },
{
}

/// An item goes over the link to the port that it is for, whatever ports there are, and
/// changes nothing.
pub proof fn law_item_goes_to_its_port<Content>(ports: Ports, remote_port: u32, content: Content)
    ensures
        ports.on_channel_msg(ChannelMsg::SendMsg { remote_port, content }) == (
            ports,
            seq![Action::Send(MultiplexMsg::Data { port: remote_port, content })],
        ),
{
}

/// The decision on a request of the other side goes back to the port that asked: that
/// the connection is open, with the port that answers, or that it is refused, with the
/// reason, upon which the port goes.
pub proof fn law_decision_goes_back<Content>(
    ports: Ports,
    port: u32,
    remote_port: u32,
    reason: Option<Content>,
)
    requires
        ports.ports.contains_key(port),
        ports.ports[port].state == (PortState::RemoteRequestingLocalService { remote_port }),
    ensures
        ports.on_channel_msg(ChannelMsg::<Content>::Accepted { local_port: port }).1 == seq![
            Action::<Content>::Send(
                MultiplexMsg::Opened { client_port: remote_port, server_port: port },
            ),
        ],
        ports.on_channel_msg(ChannelMsg::Rejected { local_port: port, reason }).1 == seq![
            Action::Send(MultiplexMsg::Refused { client_port: remote_port, reason }),
            Action::RemovePort { local_port: port },
        ],
{
}

/// A request is passed on as long as fewer than half of all ports are in use: that of
/// the other side to the local service, with the two ports of the channel; that of this
/// side to the other, with the port that is to get the answer. In either case the lock
/// and the buffer of the port are made, and the lengths of the buffer are half the
/// configured length, that length, and twice that length.
pub proof fn law_request_is_passed_on<Content, TransportStreamError>(
    ports: Ports,
    service: u32,
    client_port: u32,
    fresh: u32,
)
    requires
        ports.cfg.channel_rx_queue_length * 2 <= usize::MAX,
    ensures
        ({
            let length = ports.cfg.channel_rx_queue_length;
            let served = ports.on_message::<Content, TransportStreamError>(
                MultiplexMsg::Open { service, client_port },
                fresh,
            );
            let asked = ports.on_connect::<Content, TransportStreamError>(service, fresh);
            let made = |action: Action<Content>|
                action matches Action::CreatePort { cfg } && cfg.resume_length == length / 2
                    && cfg.pause_length == length && cfg.block_length == length * 2
                    && cfg.local_port == fresh;
            &&& ports.used.len() < 2147483647 ==> {
                &&& served matches Ok((_, actions)) && actions.len() == 2 && made(actions[0])
                    && actions[1] == (Action::<Content>::Serve {
                    service,
                    request: RemoteConnectToServiceRequest {
                        channel_data: Some(
                            ChannelData { local_port: fresh, remote_port: client_port },
                        ),
                    },
                })
                &&& asked matches Ok((_, actions)) && actions.len() == 2 && made(actions[0])
                    && actions[1] == Action::<Content>::Send(
                    MultiplexMsg::Open { service, client_port: fresh },
                )
            }
            &&& ports.used.len() >= 2147483647 ==> {
                &&& served matches Err(fault) && fault is PortsExhausted
                &&& asked matches Err(fault) && fault is PortsExhausted
            }
        }),
{
}

/// The answer to a request of this side reaches whoever asked: the two ends of the
/// channel, with the port that asked as the local one and the port that answered as the
/// remote one; or the reason of the refusal, upon which the port goes.
pub proof fn law_answer_reaches_the_asker<Content, TransportStreamError>(
    ports: Ports,
    client_port: u32,
    server_port: u32,
    reason: Option<Content>,
    fresh: u32,
)
    requires
        ports.ports.contains_key(client_port),
        ports.ports[client_port].state == PortState::LocalRequestingRemoteService,
    ensures
        ports.on_message::<Content, TransportStreamError>(
            MultiplexMsg::Opened { client_port, server_port },
            fresh,
        ) matches Ok((_, actions)) && actions == seq![
            Action::<Content>::Respond {
                local_port: client_port,
                response: ConnectToRemoteServiceResponse::Accepted {
                    sender: ChannelSender { local_port: client_port, remote_port: server_port },
                    receiver: ChannelReceiver {
                        local_port: client_port,
                        remote_port: server_port,
                        closed: false,
                        ended: false,
                    },
                },
            },
        ],
        ports.on_message::<Content, TransportStreamError>(
            MultiplexMsg::Refused { client_port, reason },
            fresh,
        ) matches Ok((_, actions)) && actions == seq![
            Action::<Content>::Respond {
                local_port: client_port,
                response: ConnectToRemoteServiceResponse::Rejected { reason },
            },
            Action::RemovePort { local_port: client_port },
        ],
{
}

/// What stops a multiplexer: the failure of the link, a port that is needed when half
/// of all ports are in use, an answer to a request that this side does not wait for, and
/// a message, other than of flow control, for a port that is not connected. Nothing else
/// does.
pub proof fn law_what_stops_a_multiplexer<Content, TransportStreamError>(
    ports: Ports,
    event: LoopEvent<Content, TransportStreamError>,
    fresh: u32,
)
    ensures
        ({
            let waits = |port: u32|
                ports.ports.contains_key(port) && ports.ports[port].state
                    == PortState::LocalRequestingRemoteService;
            let is_open = |port: u32|
                ports.ports.contains_key(port) && ports.ports[port].state is Connected;
            let stops = match event {
                LoopEvent::ChannelMsg(_) => None,
                LoopEvent::ReceiveMsg(Err(error)) => Some(Fault::ReceiveError(error)),
                LoopEvent::ConnectToRemoteServiceRequest { .. } => if ports.used.len()
                    < 2147483647 {
                    None
                } else {
                    Some(Fault::PortsExhausted)
                },
                LoopEvent::ReceiveMsg(Ok(msg)) => match msg {
                    MultiplexMsg::Open { .. } => if ports.used.len() < 2147483647 {
                        None
                    } else {
                        Some(Fault::PortsExhausted)
                    },
                    MultiplexMsg::Opened { client_port, .. } => if waits(client_port) {
                        None
                    } else if is_open(client_port) && ports.ports[client_port].client {
                        Some(Fault::Protocol(ProtocolViolation::OpenedForConnectedPort))
                    } else {
                        Some(Fault::Protocol(ProtocolViolation::OpenedForNoPort))
                    },
                    MultiplexMsg::Refused { client_port, .. } => if waits(client_port) {
                        None
                    } else if is_open(client_port) && ports.ports[client_port].client {
                        Some(Fault::Protocol(ProtocolViolation::RefusedForConnectedPort))
                    } else {
                        Some(Fault::Protocol(ProtocolViolation::RefusedForNoPort))
                    },
                    MultiplexMsg::Pause { .. } | MultiplexMsg::Resume { .. } => None,
                    MultiplexMsg::Finish { port }
                    | MultiplexMsg::FinishAck { port }
                    | MultiplexMsg::Hangup { port, .. }
                    | MultiplexMsg::Data { port, .. } => if is_open(port) {
                        None
                    } else {
                        Some(Fault::Protocol(ProtocolViolation::PortNotConnected))
                    },
                },
            };
            match ports.on_event(event, fresh) {
                Ok(_) => stops is None,
                Err(fault) => stops == Some(fault),
            }
        }),
{
}

/// Flow control for a port that is not connected does nothing.
pub proof fn law_flow_control_of_unconnected_port_is_ignored<Content, TransportStreamError>(
    ports: Ports,
    port: u32,
    fresh: u32,
)
    requires
        !ports.ports.contains_key(port) || !(ports.ports[port].state is Connected),
    ensures
        ports.on_message::<Content, TransportStreamError>(MultiplexMsg::Pause { port }, fresh)
            == Ok::<_, Fault<TransportStreamError>>((ports, Seq::<Action<Content>>::empty())),
        ports.on_message::<Content, TransportStreamError>(MultiplexMsg::Resume { port }, fresh)
            == Ok::<_, Fault<TransportStreamError>>((ports, Seq::<Action<Content>>::empty())),
{
}

/// What a channel can say: its items at any time; the end of its sender or receiver, and
/// that its buffer has reached the resume length, while it is connected; and a decision
/// while the other side waits for one. What the other side sends is not restricted.
pub proof fn law_what_can_be_said<Content, TransportStreamError>(
    ports: Ports,
    event: LoopEvent<Content, TransportStreamError>,
)
    ensures
        ({
            let is_open = |port: u32|
                ports.ports.contains_key(port) && ports.ports[port].state is Connected;
            let is_asked = |port: u32|
                ports.ports.contains_key(port) && ports.ports[port].state
                    is RemoteRequestingLocalService;
            event_expected(ports, event) <==> match event {
                LoopEvent::ChannelMsg(msg) => match msg {
                    ChannelMsg::SendMsg { .. } => true,
                    ChannelMsg::SenderDropped { local_port } => is_open(local_port),
                    ChannelMsg::ReceiverClosed { local_port, .. } => is_open(local_port),
                    ChannelMsg::ReceiveBufferReachedResumeLength { local_port } => is_open(
                        local_port,
                    ),
                    ChannelMsg::Accepted { local_port } => is_asked(local_port),
                    ChannelMsg::Rejected { local_port, .. } => is_asked(local_port),
                },
                _ => true,
            }
        }),
        event matches LoopEvent::ChannelMsg(msg) ==> (ports.expects(msg) <==> event_expected(
            ports,
            event,
        )),
        needs_port(event) <==> match event {
            LoopEvent::ReceiveMsg(Ok(MultiplexMsg::Open { .. })) => true,
            LoopEvent::ConnectToRemoteServiceRequest { .. } => true,
            _ => false,
        },
{
}

/// Every event comes to what its kind comes to: a message of a channel, a message of the
/// other side by its kind and port, or a request.
pub proof fn law_events_are_told_apart<Content, TransportStreamError>(
    ports: Ports,
    msg: ChannelMsg<Content>,
    port: u32,
    other_port: u32,
    graceful: bool,
    content: Content,
    reason: Option<Content>,
    fresh: u32,
)
    ensures
        ports.on_event::<Content, TransportStreamError>(LoopEvent::ChannelMsg(msg), fresh) == Ok::<
            _,
            Fault<TransportStreamError>,
        >(ports.on_channel_msg(msg)),
        ports.on_event::<Content, TransportStreamError>(
            LoopEvent::ConnectToRemoteServiceRequest { service: port },
            fresh,
        ) == ports.on_connect::<Content, TransportStreamError>(port, fresh),
        ({
            let on = |msg: MultiplexMsg<Content>|
                ports.on_event::<Content, TransportStreamError>(
                    LoopEvent::ReceiveMsg(Ok(msg)),
                    fresh,
                );
            let about = |msg: PortMessage<Content>|
                ports.on_port_message::<Content, TransportStreamError>(port, msg);
            &&& forall|msg: MultiplexMsg<Content>| #[trigger]
                on(msg) == ports.on_message::<Content, TransportStreamError>(msg, fresh)
            &&& on(MultiplexMsg::Opened { client_port: port, server_port: other_port })
                == ports.on_opened::<Content, TransportStreamError>(port, other_port)
            &&& on(MultiplexMsg::Refused { client_port: port, reason }) == ports.on_refused::<
                Content,
                TransportStreamError,
            >(port, reason)
            &&& on(MultiplexMsg::Pause { port }) == about(PortMessage::Pause)
            &&& on(MultiplexMsg::Resume { port }) == about(PortMessage::Resume)
            &&& on(MultiplexMsg::Finish { port }) == about(PortMessage::Finish)
            &&& on(MultiplexMsg::FinishAck { port }) == about(PortMessage::FinishAck)
            &&& on(MultiplexMsg::Hangup { port, graceful }) == about(
                PortMessage::Hangup { graceful },
            )
            &&& on(MultiplexMsg::Data { port, content }) == about(PortMessage::Data(content))
        }),
{
}

/// What is returned for an event is what the event comes to: on success the table and
/// the actions are those, and on a fault the fault is that one and the table is as
/// before.
pub proof fn law_outcome_is_what_the_event_comes_to<Content, TransportStreamError>(
    reaction: Reaction<Content, TransportStreamError>,
    before: Ports,
    after: Ports,
    result: Result<Vec<Action<Content>>, Fault<TransportStreamError>>,
)
    requires
        reacts(reaction, before, after, result),
    ensures
        result is Ok <==> reaction is Ok,
        reaction is Ok ==> after == reaction->Ok_0.0 && result->Ok_0@ == reaction->Ok_0.1,
        reaction is Err ==> after == before && result->Err_0 == reaction->Err_0,
{
}

/// A fault is reported as what it is: the error of the link as it came, a breach of the
/// protocol in its words, and the want of ports as such.
pub proof fn law_fault_is_reported_as_it_is<TransportSinkError, TransportStreamError>(
    fault: Fault<TransportStreamError>,
    error: MultiplexRunError<TransportSinkError, TransportStreamError>,
)
    ensures
        fault.reported_as(error) <==> match (fault, error) {
            (Fault::ReceiveError(e), MultiplexRunError::ReceiveError(r)) => e == r,
            (Fault::Protocol(violation), MultiplexRunError::ProtocolError(text)) => text@
                == violation.words(),
            (Fault::PortsExhausted, MultiplexRunError::PortsExhausted) => true,
            _ => false,
        },
{
}

/// The words for a breach of the protocol tell which answer came and for what port.
pub proof fn law_violations_in_words(violation: ProtocolViolation)
    ensures
        violation.words() == match violation {
            ProtocolViolation::OpenedForNoPort => "Service opened response for no port"@,
            ProtocolViolation::OpenedForConnectedPort
                => "Service opened response for connected port"@,
            ProtocolViolation::RefusedForNoPort => "Service refused response for no port"@,
            ProtocolViolation::RefusedForConnectedPort
                => "Service refused response for connected port"@,
            ProtocolViolation::PortNotConnected => "Message for port that is not connected"@,
        },
{
}

/// What is said of ports: which are connected, and by whose request, which wait for an
/// answer, and what makes a table well-formed.
pub proof fn law_words_for_ports(ports: Ports, port: u32, remote_port: u32)
    ensures
        ({
            let known = ports.ports.contains_key(port);
            let state = ports.ports[port].state;
            &&& ports.connected(port) <==> known && state is Connected
            &&& ports.requested_by_remote(port) <==> known && state is RemoteRequestingLocalService
            &&& ports.requested_by_local(port) <==> known && state is LocalRequestingRemoteService
            &&& ports.client_connected(port) <==> known && state is Connected
                && ports.ports[port].client
            &&& ports.ports[port].connected_to(remote_port) <==> state == (PortState::Connected {
                remote_port,
            })
            &&& state == (PortState::Connected { remote_port }) || state == (
            PortState::RemoteRequestingLocalService { remote_port }) ==> ports.ports[port].peer()
                == remote_port
        }),
        ports.wf() <==> {
            &&& ports.cfg.channel_rx_queue_length >= 2
            &&& ports.cfg.channel_rx_queue_length * 2 <= usize::MAX
            &&& forall|p: u32| ports.used.contains(p) <==> ports.ports.contains_key(p)
            &&& forall|p: u32| #[trigger]
                ports.ports.contains_key(p) ==> ports.ports[p].local_port == p
        },
{
    if ports.cfg.channel_rx_queue_length >= 2 && (forall|p: u32|
        ports.used.contains(p) <==> ports.ports.contains_key(p)) {
        assert(ports.used =~= ports.ports.dom());
    }
}

/// A queue length makes a configuration exactly if it is at least 2 and can be doubled.
/// Buffers pause at that length, resume at half of it, and block at twice that length.
pub proof fn law_lengths_of_buffers(cfg: Cfg, local_port: u32)
    ensures
        cfg.valid() <==> cfg.channel_rx_queue_length >= 2 && cfg.channel_rx_queue_length * 2
            <= usize::MAX,
        cfg.valid() ==> cfg.buffer_cfg(local_port) == (ChannelReceiverBufferCfg {
            resume_length: cfg.channel_rx_queue_length / 2,
            pause_length: cfg.channel_rx_queue_length,
            block_length: (cfg.channel_rx_queue_length + cfg.channel_rx_queue_length) as usize,
            local_port,
        }),
{
}

/// A new port is told its number and its state, holds its send lock and its receive
/// buffer, and nothing has happened to it, whoever asked for it.
pub proof fn law_new_port(local_port: u32, state: PortState)
    ensures
        ({
            let port = PortData::initial(local_port, state);
            &&& port.local_port == local_port
            &&& port.state == state
            &&& port.client <==> state == PortState::LocalRequestingRemoteService
            &&& port.tx_lock && port.rx_buffer
            &&& !port.tx_finished && !port.tx_finished_ack && !port.rx_finished
        }),
{
}

} // verus!

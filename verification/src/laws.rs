//! What holds of whole conversations: every step of one multiplexer, and the
//! exchange of messages between two.

use crate::allocator::exhausted;
use crate::channel::{ChannelData, ChannelReceiver, ChannelSender, RemoteConnectToServiceRequest};
use crate::message::{ChannelMsg, MultiplexMsg};
use crate::ports::{
    event_expected, needs_port, Action, Cfg, ConnectToRemoteServiceResponse, Fault, LoopEvent,
    PortData, PortState, Ports, ProtocolViolation,
};
use crate::receive_buffer::{
    flow_after, flow_after_all, if_asked, BufferStep, ChannelReceiverBufferCfg, Enqueued, Flow,
};
use vstd::prelude::*;

verus! {

/// `event` is one that can happen to `ports`, and `fresh` a port that can be
/// allocated for it.
pub open spec fn possible<Content, TransportStreamError>(
    ports: Ports,
    event: LoopEvent<Content, TransportStreamError>,
    fresh: u32,
) -> bool {
    &&& ports.wf()
    &&& event_expected(ports, event)
    &&& needs_port(event) ==> !ports.used.contains(fresh)
}

/// The local port that the event is about, if there is one.
pub open spec fn concerns<Content, TransportStreamError>(
    event: LoopEvent<Content, TransportStreamError>,
    fresh: u32,
) -> Option<u32> {
    match event {
        LoopEvent::ChannelMsg(msg) => match msg {
            ChannelMsg::SendMsg { .. } => None,
            ChannelMsg::SenderDropped { local_port } => Some(local_port),
            ChannelMsg::ReceiverClosed { local_port, .. } => Some(local_port),
            ChannelMsg::Accepted { local_port } => Some(local_port),
            ChannelMsg::Rejected { local_port, .. } => Some(local_port),
            ChannelMsg::ReceiveBufferReachedResumeLength { local_port } => Some(local_port),
        },
        LoopEvent::ReceiveMsg(Ok(msg)) => match msg {
            MultiplexMsg::Open { .. } => Some(fresh),
            MultiplexMsg::Opened { client_port, .. } => Some(client_port),
            MultiplexMsg::Refused { client_port, .. } => Some(client_port),
            MultiplexMsg::Pause { port } => Some(port),
            MultiplexMsg::Resume { port } => Some(port),
            MultiplexMsg::Finish { port } => Some(port),
            MultiplexMsg::FinishAck { port } => Some(port),
            MultiplexMsg::Hangup { port, .. } => Some(port),
            MultiplexMsg::Data { port, .. } => Some(port),
        },
        LoopEvent::ReceiveMsg(Err(_)) => None,
        LoopEvent::ConnectToRemoteServiceRequest { .. } => Some(fresh),
    }
}

/// Every event keeps the ports in the table the ports that are allocated.
pub proof fn law_table_stays_well_formed<Content, TransportStreamError>(
    ports: Ports,
    event: LoopEvent<Content, TransportStreamError>,
    fresh: u32,
)
    requires
        possible(ports, event, fresh),
    ensures
        ports.on_event(event, fresh) matches Ok((after, _)) ==> after.wf() && after.cfg
            == ports.cfg,
{
    if let Ok((after, _)) = ports.on_event(event, fresh) {
        assert(after.used =~= after.ports.dom());
    }
}

/// An event about one port leaves every other port as it is.
pub proof fn law_ports_are_independent<Content, TransportStreamError>(
    ports: Ports,
    event: LoopEvent<Content, TransportStreamError>,
    fresh: u32,
    other: u32,
)
    requires
        possible(ports, event, fresh),
        concerns(event, fresh) != Some(other),
    ensures
        ports.on_event(event, fresh) matches Ok((after, _)) ==> {
            &&& after.ports.contains_key(other) == ports.ports.contains_key(other)
            &&& ports.ports.contains_key(other) ==> after.ports[other] == ports.ports[other]
        },
{
}

/// What has happened to a port is never taken back: an open connection stays
/// open to the same remote port, what is finished stays finished, and what was
/// let go of is not taken up again.
pub proof fn law_connections_last<Content, TransportStreamError>(
    ports: Ports,
    event: LoopEvent<Content, TransportStreamError>,
    fresh: u32,
    port: u32,
)
    requires
        possible(ports, event, fresh),
        ports.connected(port),
    ensures
        ports.on_event(event, fresh) matches Ok((after, _)) ==> {
            let (old_port, new_port) = (ports.ports[port], after.ports[port]);
            &&& after.connected(port)
            &&& new_port.state == old_port.state
            &&& old_port.tx_finished ==> new_port.tx_finished
            &&& old_port.tx_finished_ack ==> new_port.tx_finished_ack
            &&& old_port.rx_finished ==> new_port.rx_finished
            &&& !old_port.tx_lock ==> !new_port.tx_lock
            &&& !old_port.rx_buffer ==> !new_port.rx_buffer
        },
{
}

/// `action` uses the send lock of `port`.
pub open spec fn uses_send_lock<Content>(action: Action<Content>, port: u32) -> bool {
    match action {
        Action::PauseSending { local_port } => local_port == port,
        Action::ResumeSending { local_port } => local_port == port,
        Action::CloseSending { local_port, .. } => local_port == port,
        _ => false,
    }
}

/// `action` uses the receive buffer of `port`.
pub open spec fn uses_receive_buffer<Content>(action: Action<Content>, port: u32) -> bool {
    match action {
        Action::Enqueue { local_port, .. } => local_port == port,
        Action::ResumeIfDrained { local_port, .. } => local_port == port,
        Action::FinishBuffer { local_port } => local_port == port,
        _ => false,
    }
}

/// Nothing uses the send lock or the receive buffer of a port that has let go of
/// it. So a send lock that was closed is never opened again.
pub proof fn law_released_handles_unused<Content, TransportStreamError>(
    ports: Ports,
    event: LoopEvent<Content, TransportStreamError>,
    fresh: u32,
    port: u32,
)
    requires
        possible(ports, event, fresh),
        ports.ports.contains_key(port),
    ensures
        ports.on_event(event, fresh) matches Ok((_, actions)) ==> forall|i: int|
            0 <= i < actions.len() ==> {
                &&& uses_send_lock(#[trigger] actions[i], port) ==> ports.ports[port].tx_lock
                &&& uses_receive_buffer(actions[i], port) ==> ports.ports[port].rx_buffer
            },
{
}

/// A message for a port that is not in the table stops the multiplexer as a
/// breach of the protocol, unless it is only about flow control.
pub proof fn law_unknown_ports_are_refused<Content, TransportStreamError>(
    ports: Ports,
    msg: MultiplexMsg<Content>,
    fresh: u32,
)
    requires
        !(msg is Open || msg is Pause || msg is Resume),
        concerns(LoopEvent::<Content, TransportStreamError>::ReceiveMsg(Ok(msg)), fresh) matches Some(
            port,
        ) && !ports.ports.contains_key(port),
    ensures
        ports.on_message::<Content, TransportStreamError>(msg, fresh) == Err::<
            (Ports, Seq<Action<Content>>),
            Fault<TransportStreamError>,
        >(
            Fault::Protocol(
                match msg {
                    MultiplexMsg::Opened { .. } => ProtocolViolation::OpenedForNoPort,
                    MultiplexMsg::Refused { .. } => ProtocolViolation::RefusedForNoPort,
                    _ => ProtocolViolation::PortNotConnected,
                },
            ),
        ),
{
}

/// The client port of the answer to a request to connect.
pub open spec fn answer_to<Content>(msg: MultiplexMsg<Content>) -> Option<u32> {
    match msg {
        MultiplexMsg::Opened { client_port, .. } => Some(client_port),
        MultiplexMsg::Refused { client_port, .. } => Some(client_port),
        _ => None,
    }
}

/// The table after `events`, each with the port that can be allocated for it, or
/// why the multiplexer stops.
pub open spec fn after_events<Content, TransportStreamError>(
    ports: Ports,
    events: Seq<(LoopEvent<Content, TransportStreamError>, u32)>,
) -> Result<Ports, Fault<TransportStreamError>>
    decreases events.len(),
{
    if events.len() == 0 {
        Ok(ports)
    } else {
        match after_events(ports, events.drop_last()) {
            Err(fault) => Err(fault),
            Ok(before) => match before.on_event(events.last().0, events.last().1) {
                Err(fault) => Err(fault),
                Ok((after, _)) => Ok(after),
            },
        }
    }
}

/// The events can happen one after the other.
pub open spec fn events_possible<Content, TransportStreamError>(
    ports: Ports,
    events: Seq<(LoopEvent<Content, TransportStreamError>, u32)>,
) -> bool
    decreases events.len(),
{
    events.len() > 0 ==> {
        &&& events_possible(ports, events.drop_last())
        &&& after_events(ports, events.drop_last()) matches Ok(before) ==> possible(
            before,
            events.last().0,
            events.last().1,
        )
    }
}

/// In the course of `events` a connection was asked for on port `c`, and the last
/// request has not been answered.
pub open spec fn unanswered<Content, TransportStreamError>(
    events: Seq<(LoopEvent<Content, TransportStreamError>, u32)>,
    c: u32,
) -> bool
    decreases events.len(),
{
    if events.len() == 0 {
        false
    } else {
        let (event, fresh) = events.last();
        match event {
            LoopEvent::ConnectToRemoteServiceRequest { .. } if fresh == c => true,
            LoopEvent::ReceiveMsg(Ok(msg)) if answer_to(msg) == Some(c) => false,
            _ => unanswered(events.drop_last(), c),
        }
    }
}

/// Whatever the other side sends, an answer to a request to connect is a breach of
/// the protocol exactly where no request on that port is unanswered.
pub proof fn law_answers_need_a_request<Content, TransportStreamError>(
    start: Ports,
    events: Seq<(LoopEvent<Content, TransportStreamError>, u32)>,
    answer: MultiplexMsg<Content>,
    c: u32,
    fresh: u32,
)
    requires
        start.ports == Map::<u32, PortData>::empty(),
        events_possible(start, events),
        answer_to(answer) == Some(c),
    ensures
        after_events(start, events) matches Ok(ports) ==> {
            &&& ports.requested_by_local(c) == unanswered(events, c)
            &&& match ports.on_message::<Content, TransportStreamError>(answer, fresh) {
                Ok(_) => unanswered(events, c),
                Err(fault) => !unanswered(events, c) && fault is Protocol,
            }
        },
    decreases events.len(),
{
    if events.len() > 0 {
        law_answers_need_a_request(start, events.drop_last(), answer, c, fresh);
    }
}

/// The port `a` of `x` and the port `b` of `y` are the two ends of one connection.
pub open spec fn paired(x: Ports, a: u32, y: Ports, b: u32) -> bool {
    &&& x.connected(a) && x.ports[a].connected_to(b)
    &&& y.connected(b) && y.ports[b].connected_to(a)
}

/// A request to connect that the other side accepts: the request travels as Open,
/// the answer as Opened, and at the end the two new ports are the two ends of one
/// connection. The channel ends on either side name the ports accordingly.
pub proof fn law_accepted_connection_is_paired<Content, TransportStreamError>(
    client: Ports,
    server: Ports,
    service: u32,
    c: u32,
    s: u32,
)
    requires
        client.wf() && server.wf(),
        !exhausted(client.used) && !client.used.contains(c),
        !exhausted(server.used) && !server.used.contains(s),
    ensures
        ({
            let client1 = client.created(c, PortState::LocalRequestingRemoteService);
            let server1 = server.created(
                s,
                PortState::RemoteRequestingLocalService { remote_port: c },
            );
            let accepted = ChannelMsg::<Content>::Accepted { local_port: s };
            let (server2, _) = server1.on_channel_msg(accepted);
            let client2 = client1.put(
                PortData {
                    state: PortState::Connected { remote_port: s },
                    ..client1.ports[c]
                },
            );
            let at_server = ChannelData { local_port: s, remote_port: c };
            let at_client = ChannelData { local_port: c, remote_port: s };
            // The client asks,
            &&& client.on_connect::<Content, TransportStreamError>(service, c) == Ok::<
                _,
                Fault<TransportStreamError>,
            >(
                (
                    client1,
                    seq![
                        Action::<Content>::CreatePort { cfg: client.cfg.buffer_cfg(c) },
                        Action::Send(MultiplexMsg::Open { service, client_port: c }),
                    ],
                ),
            )
            // the server passes the request on,
            &&& server.on_message::<Content, TransportStreamError>(
                MultiplexMsg::Open { service, client_port: c },
                s,
            ) == Ok::<_, Fault<TransportStreamError>>(
                (
                    server1,
                    seq![
                        Action::<Content>::CreatePort { cfg: server.cfg.buffer_cfg(s) },
                        Action::Serve {
                            service,
                            request: RemoteConnectToServiceRequest { channel_data: Some(at_server) },
                        },
                    ],
                ),
            )
            // which is accepted and answered,
            &&& server1.expects(accepted)
            &&& server1.on_channel_msg(accepted) == (
                server2,
                seq![
                    Action::<Content>::Send(
                        MultiplexMsg::Opened { client_port: c, server_port: s },
                    ),
                ],
            )
            // and the client hands the channel to whoever asked.
            &&& client1.on_opened::<Content, TransportStreamError>(c, s) == Ok::<
                _,
                Fault<TransportStreamError>,
            >(
                (
                    client2,
                    seq![
                        Action::<Content>::Respond {
                            local_port: c,
                            response: ConnectToRemoteServiceResponse::Accepted {
                                sender: ChannelSender::at(at_client),
                                receiver: ChannelReceiver::at(at_client),
                            },
                        },
                    ],
                ),
            )
            &&& paired(client2, c, server2, s)
        }),
{
}

/// A request to connect that the other side rejects: the request travels as Open,
/// the answer as Refused, whoever asked is told with the reason of the service, and
/// both port tables are at the end what they were at the beginning.
pub proof fn law_refused_connection_leaves_no_trace<Content, TransportStreamError>(
    client: Ports,
    server: Ports,
    service: u32,
    c: u32,
    s: u32,
    reason: Option<Content>,
)
    requires
        client.wf() && server.wf(),
        !exhausted(client.used) && !client.used.contains(c),
        !exhausted(server.used) && !server.used.contains(s),
    ensures
        ({
            let client1 = client.created(c, PortState::LocalRequestingRemoteService);
            let server1 = server.created(
                s,
                PortState::RemoteRequestingLocalService { remote_port: c },
            );
            let rejected = ChannelMsg::<Content>::Rejected { local_port: s, reason };
            &&& client.on_connect::<Content, TransportStreamError>(service, c) matches Ok(
                (after, actions),
            ) && after == client1 && actions[1] == Action::<Content>::Send(
                MultiplexMsg::Open { service, client_port: c },
            )
            &&& server.on_message::<Content, TransportStreamError>(
                MultiplexMsg::Open { service, client_port: c },
                s,
            ) matches Ok((after, _)) && after == server1
            &&& server1.expects(rejected)
            &&& server1.on_channel_msg(rejected) == (
                server,
                seq![
                    Action::<Content>::Send(MultiplexMsg::Refused { client_port: c, reason }),
                    Action::RemovePort { local_port: s },
                ],
            )
            &&& client1.on_refused::<Content, TransportStreamError>(c, reason) == Ok::<
                _,
                Fault<TransportStreamError>,
            >(
                (
                    client,
                    seq![
                        Action::<Content>::Respond {
                            local_port: c,
                            response: ConnectToRemoteServiceResponse::Rejected { reason },
                        },
                        Action::RemovePort { local_port: c },
                    ],
                ),
            )
        }),
{
    let client1 = client.created(c, PortState::LocalRequestingRemoteService);
    let server1 = server.created(s, PortState::RemoteRequestingLocalService { remote_port: c });
    assert(client1.released(c) =~= client);
    assert(server1.released(s) =~= server);
}

/// The messages on the link for `contents`, sent one after the other by the
/// sender of a channel whose remote port is `port`.
pub open spec fn link_messages<Content>(x: Ports, port: u32, contents: Seq<Content>) -> Seq<
    MultiplexMsg<Content>,
>
    decreases contents.len(),
{
    if contents.len() == 0 {
        Seq::empty()
    } else {
        let (after, actions) = x.on_channel_msg(
            ChannelMsg::SendMsg { remote_port: port, content: contents[0] },
        );
        sent_by(actions, false) + link_messages(after, port, contents.drop_first())
    }
}

/// A sequence of `msg`, if there is one.
pub open spec fn at_most_one<Content>(msg: Option<MultiplexMsg<Content>>) -> Seq<
    MultiplexMsg<Content>,
> {
    match msg {
        Some(msg) => seq![msg],
        None => Seq::empty(),
    }
}

/// The messages that `actions` put on the link, in order. `flow` says whether the
/// receive buffer that is asked calls for a message of flow control.
pub open spec fn sent_by<Content>(actions: Seq<Action<Content>>, flow: bool) -> Seq<
    MultiplexMsg<Content>,
>
    decreases actions.len(),
{
    if actions.len() == 0 {
        Seq::empty()
    } else {
        let rest = sent_by(actions.drop_first(), flow);
        match actions[0] {
            Action::Send(msg) => seq![msg] + rest,
            Action::Enqueue { pause, .. } => at_most_one(if_asked(flow, pause)) + rest,
            Action::ResumeIfDrained { resume, .. } => at_most_one(if_asked(flow, resume)) + rest,
            _ => rest,
        }
    }
}

/// What is put into the receive buffer of `port` when `y` gets `messages` one
/// after the other, where `fresh` are the ports that can be allocated for them.
/// `None` where one of them stops the multiplexer.
pub open spec fn buffered<Content>(
    y: Ports,
    port: u32,
    messages: Seq<MultiplexMsg<Content>>,
    fresh: Seq<u32>,
) -> Option<Seq<Content>>
    decreases messages.len(),
{
    if messages.len() == 0 {
        Some(Seq::empty())
    } else {
        match y.on_message::<Content, ()>(messages[0], fresh[0]) {
            Err(_) => None,
            Ok((after, actions)) => match buffered(
                after,
                port,
                messages.drop_first(),
                fresh.drop_first(),
            ) {
                None => None,
                Some(rest) => Some(enqueued_by(actions, port) + rest),
            },
        }
    }
}

/// What `actions` put into the receive buffer of `port`, in order.
pub open spec fn enqueued_by<Content>(actions: Seq<Action<Content>>, port: u32) -> Seq<Content>
    decreases actions.len(),
{
    if actions.len() == 0 {
        Seq::empty()
    } else {
        let rest = enqueued_by(actions.drop_first(), port);
        match actions[0] {
            Action::Enqueue { local_port, content, .. } => if local_port == port {
                seq![content] + rest
            } else {
                rest
            },
            _ => rest,
        }
    }
}

/// The data for `port` among `messages`, in order.
pub open spec fn data_for<Content>(messages: Seq<MultiplexMsg<Content>>, port: u32) -> Seq<Content>
    decreases messages.len(),
{
    if messages.len() == 0 {
        Seq::empty()
    } else {
        let rest = data_for(messages.drop_first(), port);
        match messages[0] {
            MultiplexMsg::Data { port: p, content } => if p == port {
                seq![content] + rest
            } else {
                rest
            },
            _ => rest,
        }
    }
}

/// Whatever else comes over the link, the receive buffer of a port is given the
/// data for that port, all of it, nothing else, and in the order in which it
/// came, as long as it is not finished.
pub proof fn law_data_not_mixed_up<Content>(
    y: Ports,
    b: u32,
    messages: Seq<MultiplexMsg<Content>>,
    fresh: Seq<u32>,
)
    requires
        y.wf(),
        y.connected(b),
        y.ports[b].rx_buffer,
        fresh.len() == messages.len(),
        forall|i: int| 0 <= i < fresh.len() ==> #[trigger] fresh[i] != b,
        forall|i: int|
            0 <= i < messages.len() ==> #[trigger] messages[i] != (MultiplexMsg::<
                Content,
            >::Finish { port: b }),
    ensures
        buffered(y, b, messages, fresh) matches Some(got) ==> got == data_for(messages, b),
    decreases messages.len(),
{
    if messages.len() > 0 {
        if let Ok((after, actions)) = y.on_message::<Content, ()>(messages[0], fresh[0]) {
            let (later, ports) = (messages.drop_first(), fresh.drop_first());
            assert(messages[0] != (MultiplexMsg::<Content>::Finish { port: b }));
            assert(fresh[0] != b);
            assert(after.connected(b) && after.ports[b].rx_buffer);
            assert forall|i: int| 0 <= i < ports.len() implies #[trigger] ports[i] != b by {
                assert(ports[i] == fresh[i + 1]);
            }
            assert forall|i: int| 0 <= i < later.len() implies #[trigger] later[i] != (
            MultiplexMsg::<Content>::Finish { port: b }) by {
                assert(later[i] == messages[i + 1]);
            }
            assert(after.wf()) by {
                assert(after.used =~= after.ports.dom());
            }
            law_data_not_mixed_up(after, b, later, ports);
            lemma_one_message_enqueues(y, b, messages[0], fresh[0]);
            if let Some(rest) = buffered(after, b, later, ports) {
                assert(enqueued_by(actions, b) + rest =~= data_for(messages, b));
            }
        }
    }
}

/// What one message puts into the receive buffer of a port.
proof fn lemma_one_message_enqueues<Content>(
    y: Ports,
    b: u32,
    msg: MultiplexMsg<Content>,
    fresh: u32,
)
    requires
        y.connected(b),
        y.ports[b].rx_buffer,
    ensures
        y.on_message::<Content, ()>(msg, fresh) matches Ok((_, actions)) ==> enqueued_by(actions, b)
            == (match msg {
            MultiplexMsg::Data { port, content } => if port == b {
                seq![content]
            } else {
                Seq::empty()
            },
            _ => Seq::empty(),
        }),
{
    if let Ok((_, actions)) = y.on_message::<Content, ()>(msg, fresh) {
        reveal_with_fuel(enqueued_by, 3);
        assert(actions.len() <= 2);
        if actions.len() == 1 {
            assert(actions.drop_first() =~= Seq::<Action<Content>>::empty());
        }
        if actions.len() == 2 {
            assert(actions.drop_first() =~= seq![actions[1]]);
            assert(actions.drop_first().drop_first() =~= Seq::<Action<Content>>::empty());
        }
        let got = enqueued_by(actions, b);
        match msg {
            MultiplexMsg::Data { port, content } if port == b => {
                assert(got =~= seq![content]);
            },
            _ => {
                assert(got =~= Seq::<Content>::empty());
            },
        }
    }
}

/// What is sent into a channel on one side is put into the receive buffer of the
/// other side, all of it and in the same order.
pub proof fn law_data_crosses_the_link<Content>(
    x: Ports,
    a: u32,
    y: Ports,
    b: u32,
    contents: Seq<Content>,
    fresh: Seq<u32>,
)
    requires
        paired(x, a, y, b),
        y.ports[b].rx_buffer,
        fresh.len() == contents.len(),
    ensures
        buffered(y, b, link_messages(x, x.ports[a].peer(), contents), fresh) == Some(contents),
    decreases contents.len(),
{
    let messages = link_messages(x, b, contents);
    if contents.len() > 0 {
        let rest = contents.drop_first();
        law_data_crosses_the_link(x, a, y, b, rest, fresh.drop_first());
        let data = MultiplexMsg::Data { port: b, content: contents[0] };
        let (_, sends) = x.on_channel_msg(
            ChannelMsg::SendMsg { remote_port: b, content: contents[0] },
        );
        assert(sends.drop_first() =~= Seq::<Action<Content>>::empty());
        reveal_with_fuel(sent_by, 2);
        assert(sent_by(sends, false) =~= seq![data]);
        assert(messages =~= seq![data] + link_messages(x, b, rest));
        assert(messages.drop_first() =~= link_messages(x, b, rest));
        lemma_one_message_enqueues(y, b, data, fresh[0]);
        assert(seq![contents[0]] + rest =~= contents);
    } else {
        assert(contents =~= Seq::<Content>::empty());
    }
}

/// The pause and resume notifications of a receive buffer reach the send lock at
/// the other end of the connection.
pub proof fn law_flow_control_reaches_sender<Content, TransportStreamError>(
    x: Ports,
    a: u32,
    y: Ports,
    b: u32,
    content: Content,
    fresh: u32,
)
    requires
        paired(x, a, y, b),
        x.ports[a].rx_buffer,
        y.ports[b].tx_lock,
    ensures
        ({
            let pause = MultiplexMsg::<Content>::Pause { port: b };
            let resume = MultiplexMsg::<Content>::Resume { port: b };
            &&& x.on_message::<Content, TransportStreamError>(
                MultiplexMsg::Data { port: a, content },
                fresh,
            ) == Ok::<_, Fault<TransportStreamError>>(
                (x, seq![Action::Enqueue { local_port: a, content, pause }]),
            )
            &&& y.on_message::<Content, TransportStreamError>(pause, fresh) == Ok::<
                _,
                Fault<TransportStreamError>,
            >((y, seq![Action::<Content>::PauseSending { local_port: b }]))
            &&& x.on_channel_msg(
                ChannelMsg::<Content>::ReceiveBufferReachedResumeLength { local_port: a },
            ) == (x, seq![Action::<Content>::ResumeIfDrained { local_port: a, resume }])
            &&& y.on_message::<Content, TransportStreamError>(resume, fresh) == Ok::<
                _,
                Fault<TransportStreamError>,
            >((y, seq![Action::<Content>::ResumeSending { local_port: b }]))
        }),
{
}

/// The end of a sender reaches the receive buffer at the other end of the
/// connection and is acknowledged.
pub proof fn law_sender_end_is_acknowledged<Content, TransportStreamError>(
    x: Ports,
    a: u32,
    y: Ports,
    b: u32,
    fresh: u32,
)
    requires
        x.wf() && y.wf(),
        paired(x, a, y, b),
        y.ports[b].rx_buffer,
    ensures
        ({
            let x1 = x.put(PortData { tx_finished: true, ..x.ports[a] });
            let y1 = y.put(PortData { rx_finished: true, rx_buffer: false, ..y.ports[b] });
            let x2 = x1.put(PortData { tx_finished_ack: true, ..x1.ports[a] });
            &&& x.on_channel_msg(ChannelMsg::<Content>::SenderDropped { local_port: a }) == (
                x1,
                seq![Action::<Content>::Send(MultiplexMsg::Finish { port: b })],
            )
            &&& y.on_message::<Content, TransportStreamError>(
                MultiplexMsg::Finish { port: b },
                fresh,
            ) == Ok::<_, Fault<TransportStreamError>>(
                (
                    y1,
                    seq![
                        Action::<Content>::FinishBuffer { local_port: b },
                        Action::Send(MultiplexMsg::FinishAck { port: a }),
                    ],
                ),
            )
            &&& x1.on_message::<Content, TransportStreamError>(
                MultiplexMsg::FinishAck { port: a },
                fresh,
            ) == Ok::<_, Fault<TransportStreamError>>((x2, Seq::<Action<Content>>::empty()))
            &&& x2.ports[a].tx_finished && x2.ports[a].tx_finished_ack
        }),
{
}

/// The end of a receiver reaches the send lock at the other end of the
/// connection, with word of whether it was graceful. Data that is under way by
/// then is still received after a graceful end, and thrown away after another.
pub proof fn law_receiver_end_closes_sender<Content, TransportStreamError>(
    x: Ports,
    a: u32,
    y: Ports,
    b: u32,
    gracefully: bool,
    under_way: Content,
    fresh: u32,
)
    requires
        x.wf() && y.wf(),
        paired(x, a, y, b),
        x.ports[a].rx_buffer,
        y.ports[b].tx_lock,
    ensures
        ({
            let (x1, told) = x.on_channel_msg(
                ChannelMsg::<Content>::ReceiverClosed { local_port: a, gracefully },
            );
            let y1 = y.put(PortData { tx_lock: false, ..y.ports[b] });
            &&& told.last() == Action::<Content>::Send(
                MultiplexMsg::Hangup { port: b, graceful: gracefully },
            )
            &&& y.on_message::<Content, TransportStreamError>(
                MultiplexMsg::Hangup { port: b, graceful: gracefully },
                fresh,
            ) == Ok::<_, Fault<TransportStreamError>>(
                (y1, seq![Action::<Content>::CloseSending { local_port: b, gracefully }]),
            )
            &&& x1.on_message::<Content, TransportStreamError>(
                MultiplexMsg::Data { port: a, content: under_way },
                fresh,
            ) == Ok::<_, Fault<TransportStreamError>>(
                (
                    x1,
                    if gracefully {
                        seq![
                            Action::Enqueue {
                                local_port: a,
                                content: under_way,
                                pause: MultiplexMsg::Pause { port: b },
                            },
                        ]
                    } else {
                        Seq::empty()
                    },
                ),
            )
        }),
{
}

/// Every configuration that a multiplexer accepts gives receive buffers whose
/// lengths are in order.
pub proof fn law_buffer_lengths_in_order(cfg: Cfg, local_port: u32)
    requires
        cfg.valid(),
    ensures
        cfg.buffer_cfg(local_port).valid(),
{
}

/// The flow control of one direction of a connection.
pub struct FlowControl<Content> {
    /// The receive buffer and what has passed through it.
    pub flow: Flow<Content>,
    /// How many times the multiplexer still has to be told that the resume length
    /// was reached.
    pub notices: nat,
    /// What has been sent to the sender about it, first to last.
    pub told: Seq<MultiplexMsg<Content>>,
}

impl<Content> FlowControl<Content> {
    /// The last message to the sender was to pause.
    pub open spec fn paused(self) -> bool {
        self.told.len() > 0 && self.told.last() is Pause
    }
}

/// What happens to the flow control of one direction of a connection.
pub enum FlowStep<Content> {
    /// Data arrives, and is enqueued.
    Arrive(Content),
    /// The receiver takes an item.
    Take,
    /// The multiplexer is told that the resume length was reached.
    Notice,
}

/// The flow control after `step`, where the sender is on `port` of the other side.
/// What is sent to it is what `Enqueued::pause_message` gives for an item that
/// arrives, and what `resume_message` gives for the buffer when the multiplexer is
/// told of the resume length.
pub open spec fn flow_control_after<Content>(
    control: FlowControl<Content>,
    port: u32,
    step: FlowStep<Content>,
) -> FlowControl<Content> {
    let buffer = control.flow.buffer;
    match step {
        FlowStep::Arrive(item) => if buffer.full() {
            control
        } else {
            let flow = flow_after(control.flow, BufferStep::Enqueue(item));
            let outcome = Enqueued::<Content>::Stored { pause: flow.buffer.at_pause_length() };
            let pause = if_asked(outcome.asks_to_pause(), MultiplexMsg::Pause { port });
            FlowControl { flow, told: control.told + at_most_one(pause), ..control }
        },
        FlowStep::Take => FlowControl {
            flow: flow_after(control.flow, BufferStep::Dequeue),
            notices: if buffer.notice() is Some {
                control.notices + 1
            } else {
                control.notices
            },
            ..control
        },
        FlowStep::Notice => if control.notices == 0 {
            control
        } else {
            let resume = if_asked(buffer.resumeable(), MultiplexMsg::Resume { port });
            FlowControl {
                notices: (control.notices - 1) as nat,
                told: control.told + at_most_one(resume),
                ..control
            }
        },
    }
}

/// The flow control of a new connection after `steps`.
pub open spec fn flow_control_after_all<Content>(
    cfg: ChannelReceiverBufferCfg,
    port: u32,
    steps: Seq<FlowStep<Content>>,
) -> FlowControl<Content>
    decreases steps.len(),
{
    if steps.len() == 0 {
        FlowControl { flow: flow_after_all(cfg, Seq::empty()), notices: 0, told: Seq::empty() }
    } else {
        flow_control_after(
            flow_control_after_all(cfg, port, steps.drop_last()),
            port,
            steps.last(),
        )
    }
}

/// No sender is left paused: as long as it is, the buffer is above its resume
/// length or the multiplexer has still to be told that it is not. So once the
/// receiver has taken everything and the multiplexer has been told, the sender is
/// not paused. And the buffer reaches its pause length only with the sender told.
pub proof fn law_no_sender_left_paused<Content>(
    cfg: ChannelReceiverBufferCfg,
    port: u32,
    steps: Seq<FlowStep<Content>>,
)
    requires
        cfg.valid(),
    ensures
        ({
            let control = flow_control_after_all(cfg, port, steps);
            let buffer = control.flow.buffer;
            &&& buffer.cfg == cfg
            &&& control.paused() ==> !buffer.resumeable() || control.notices > 0
            &&& !control.paused() ==> buffer.items.len() < cfg.pause_length
        }),
    decreases steps.len(),
{
    if steps.len() > 0 {
        law_no_sender_left_paused(cfg, port, steps.drop_last());
    }
}

} // verus!

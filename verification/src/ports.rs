//! The port table of a multiplexer, and what the multiplexer does on each event.

use crate::allocator::{exhausted, NumberAllocator};
use crate::channel::{ChannelData, ChannelReceiver, ChannelSender, RemoteConnectToServiceRequest};
use crate::message::{ChannelMsg, MultiplexMsg, MultiplexRunError};
use crate::receive_buffer::ChannelReceiverBufferCfg;
use std::collections::HashMap;
use vstd::pervasive::unreached;
use vstd::prelude::*;

verus! {

/// How a multiplexer serializes and deserializes the content of its channels.
pub struct Multiplexer<ContentSerializer, ContentDeserializer> {
    pub content_serializer: ContentSerializer,
    pub content_deserializer: ContentDeserializer,
}

/// Multiplexer configuration.
#[derive(Debug, Clone, Copy, PartialEq, Eq, Structural)]
pub struct Cfg {
    /// Length of the receive queue of a channel at which its sender is paused.
    pub channel_rx_queue_length: usize,
}

impl Cfg {
    /// The channel receive queue length is at least 2, and twice that length can
    /// be counted.
    pub open spec fn valid(self) -> bool {
        2 <= self.channel_rx_queue_length && self.channel_rx_queue_length * 2 <= usize::MAX
    }

    /// The receive buffer configuration of the channel on `local_port`.
    pub open spec fn buffer_cfg(self, local_port: u32) -> ChannelReceiverBufferCfg {
        ChannelReceiverBufferCfg {
            resume_length: self.channel_rx_queue_length / 2,
            pause_length: self.channel_rx_queue_length,
            block_length: (self.channel_rx_queue_length * 2) as usize,
            local_port,
        }
    }

    /// Computes the receive buffer configuration of the channel on `local_port`.
    pub fn receive_buffer(&self, local_port: u32) -> (cfg: ChannelReceiverBufferCfg)
        requires
            self.valid(),
        ensures
            cfg == self.buffer_cfg(local_port),
            cfg.valid(),
    {
        ChannelReceiverBufferCfg {
            resume_length: self.channel_rx_queue_length / 2,
            pause_length: self.channel_rx_queue_length,
            block_length: self.channel_rx_queue_length * 2,
            local_port,
        }
    }
}

/// How far the connection of a port has come.
#[derive(Debug, Clone, Copy, PartialEq, Eq, Structural)]
pub enum PortState {
    /// This side asked for a service and waits for the answer.
    LocalRequestingRemoteService,
    /// The other side asked for a service and waits for the answer.
    RemoteRequestingLocalService { remote_port: u32 },
    /// The connection is open.
    Connected { remote_port: u32 },
}

/// What the multiplexer knows of a port.
#[derive(Debug, Clone, Copy, PartialEq, Eq, Structural)]
pub struct PortData {
    pub local_port: u32,
    pub state: PortState,
    /// This side asked for the connection.
    pub client: bool,
    /// The send lock is still held, so sending can be paused and resumed.
    pub tx_lock: bool,
    /// The receive buffer is still held, so data can be put into it.
    pub rx_buffer: bool,
    /// The sender is gone and Finish was sent.
    pub tx_finished: bool,
    /// The other side has acknowledged Finish.
    pub tx_finished_ack: bool,
    /// The other side has sent Finish.
    pub rx_finished: bool,
}

impl PortData {
    /// A port of which nothing but `state` has happened yet.
    pub open spec fn initial(local_port: u32, state: PortState) -> PortData {
        PortData {
            local_port,
            state,
            client: state is LocalRequestingRemoteService,
            tx_lock: true,
            rx_buffer: true,
            tx_finished: false,
            tx_finished_ack: false,
            rx_finished: false,
        }
    }

    /// Creates a port in `state`.
    pub fn new(local_port: u32, state: PortState) -> (port: PortData)
        ensures
            port == PortData::initial(local_port, state),
    {
        PortData {
            local_port,
            state,
            client: matches!(state, PortState::LocalRequestingRemoteService),
            tx_lock: true,
            rx_buffer: true,
            tx_finished: false,
            tx_finished_ack: false,
            rx_finished: false,
        }
    }

    /// The port is connected to `remote_port`.
    pub open spec fn connected_to(self, remote_port: u32) -> bool {
        self.state == PortState::Connected { remote_port }
    }

    /// The port on the other side, whether the connection is open or only
    /// requested by the other side.
    pub open spec fn peer(self) -> u32 {
        match self.state {
            PortState::Connected { remote_port } => remote_port,
            PortState::RemoteRequestingLocalService { remote_port } => remote_port,
            PortState::LocalRequestingRemoteService => arbitrary(),
        }
    }

    /// The port on the other side of an open connection.
    pub fn remote_port(&self) -> (port: u32)
        requires
            self.state is Connected,
        ensures
            self.connected_to(port),
            port == self.peer(),
            self.state == (PortState::Connected { remote_port: port }),
    {
        match self.state {
            PortState::Connected { remote_port } => remote_port,
            _ => unreached(),
        }
    }
}

/// The answer to a request to connect to a service of the other side.
pub enum ConnectToRemoteServiceResponse<Content> {
    Accepted { sender: ChannelSender, receiver: ChannelReceiver },
    Rejected { reason: Option<Content> },
}

/// What the event loop of a multiplexer reacts to.
pub enum LoopEvent<Content, TransportStreamError> {
    /// A message from a local channel.
    ChannelMsg(ChannelMsg<Content>),
    /// Received message from transport.
    ReceiveMsg(Result<MultiplexMsg<Content>, TransportStreamError>),
    /// Connect to service with specified id on the remote side.
    ConnectToRemoteServiceRequest { service: u32 },
}

/// What is to be done about an event.
pub enum Action<Content> {
    /// Send the message over the link.
    Send(MultiplexMsg<Content>),
    /// Create the send lock and the receive buffer of port `cfg.local_port`.
    CreatePort { cfg: ChannelReceiverBufferCfg },
    /// Let go of the send lock and the receive buffer of the port.
    RemovePort { local_port: u32 },
    /// Hand the request to the local service.
    Serve { service: u32, request: RemoteConnectToServiceRequest },
    /// Answer the local request to connect that was given the port.
    Respond { local_port: u32, response: ConnectToRemoteServiceResponse<Content> },
    /// Pause sending on the port.
    PauseSending { local_port: u32 },
    /// Resume sending on the port.
    ResumeSending { local_port: u32 },
    /// Close the send lock of the port and let go of it.
    CloseSending { local_port: u32, gracefully: bool },
    /// Put the content into the receive buffer of the port. Send `pause` over
    /// the link if the pause length is reached by that.
    Enqueue { local_port: u32, content: Content, pause: MultiplexMsg<Content> },
    /// Send `resume` over the link if the receive buffer of the port is resumeable.
    ResumeIfDrained { local_port: u32, resume: MultiplexMsg<Content> },
    /// Close the receive buffer of the port and let go of it.
    FinishBuffer { local_port: u32 },
    /// Let go of the receive buffer of the port.
    DropBuffer { local_port: u32 },
}

/// How the other side broke the protocol.
#[derive(Debug, Clone, Copy, PartialEq, Eq, Structural)]
pub enum ProtocolViolation {
    OpenedForNoPort,
    OpenedForConnectedPort,
    RefusedForNoPort,
    RefusedForConnectedPort,
    PortNotConnected,
}

impl ProtocolViolation {
    /// The violation in words.
    pub open spec fn words(self) -> Seq<char> {
        match self {
            ProtocolViolation::OpenedForNoPort => "Service opened response for no port"@,
            ProtocolViolation::OpenedForConnectedPort => "Service opened response for connected port"@,
            ProtocolViolation::RefusedForNoPort => "Service refused response for no port"@,
            ProtocolViolation::RefusedForConnectedPort => "Service refused response for connected port"@,
            ProtocolViolation::PortNotConnected => "Message for port that is not connected"@,
        }
    }

    /// Puts the violation into words.
    pub fn message(&self) -> (text: String)
        ensures
            text@ == self.words(),
    {
        match self {
            ProtocolViolation::OpenedForNoPort => "Service opened response for no port".to_owned(),
            ProtocolViolation::OpenedForConnectedPort => {
                "Service opened response for connected port".to_owned()
            },
            ProtocolViolation::RefusedForNoPort => "Service refused response for no port".to_owned(),
            ProtocolViolation::RefusedForConnectedPort => {
                "Service refused response for connected port".to_owned()
            },
            ProtocolViolation::PortNotConnected => "Message for port that is not connected".to_owned(),
        }
    }
}

/// Why an event stops the multiplexer.
#[derive(Debug)]
pub enum Fault<TransportStreamError> {
    ReceiveError(TransportStreamError),
    Protocol(ProtocolViolation),
    PortsExhausted,
}

impl<TransportStreamError> Fault<TransportStreamError> {
    /// The error that `error` reports is this fault.
    pub open spec fn reported_as<TransportSinkError>(
        self,
        error: MultiplexRunError<TransportSinkError, TransportStreamError>,
    ) -> bool {
        match self {
            Fault::ReceiveError(e) => error == MultiplexRunError::<
                TransportSinkError,
                TransportStreamError,
            >::ReceiveError(e),
            Fault::Protocol(violation) => error matches MultiplexRunError::ProtocolError(text)
                && text@ == violation.words(),
            Fault::PortsExhausted => error is PortsExhausted,
        }
    }

    /// The error that the multiplexer returns.
    pub fn into_run_error<TransportSinkError>(self) -> (error: MultiplexRunError<
        TransportSinkError,
        TransportStreamError,
    >)
        ensures
            self.reported_as(error),
    {
        match self {
            Fault::ReceiveError(e) => MultiplexRunError::ReceiveError(e),
            Fault::Protocol(violation) => MultiplexRunError::ProtocolError(violation.message()),
            Fault::PortsExhausted => MultiplexRunError::PortsExhausted,
        }
    }
}

/// What a port table is: which ports are allocated, and what is known of them.
#[verifier::ext_equal]
pub struct Ports {
    pub cfg: Cfg,
    pub used: Set<u32>,
    pub ports: Map<u32, PortData>,
}

/// What comes of an event: the port table afterwards and what is to be done, or
/// why the multiplexer stops.
pub type Reaction<Content, TransportStreamError> = Result<
    (Ports, Seq<Action<Content>>),
    Fault<TransportStreamError>,
>;

impl Ports {
    /// A port is in the table exactly if it is allocated.
    pub open spec fn wf(self) -> bool {
        &&& self.cfg.valid()
        &&& self.used == self.ports.dom()
        &&& forall|p: u32| #[trigger]
            self.ports.contains_key(p) ==> self.ports[p].local_port == p
    }

    /// The port is in the table and its connection is open.
    pub open spec fn connected(self, port: u32) -> bool {
        self.ports.contains_key(port) && self.ports[port].state is Connected
    }

    /// The port is in the table and the other side waits for an answer.
    pub open spec fn requested_by_remote(self, port: u32) -> bool {
        self.ports.contains_key(port) && self.ports[port].state is RemoteRequestingLocalService
    }

    /// The port is in the table and this side waits for an answer.
    pub open spec fn requested_by_local(self, port: u32) -> bool {
        self.ports.contains_key(port) && self.ports[port].state is LocalRequestingRemoteService
    }

    /// The port is in the table, its connection is open, and this side asked for it.
    pub open spec fn client_connected(self, port: u32) -> bool {
        self.connected(port) && self.ports[port].client
    }

    /// The table with `data` for its port.
    pub open spec fn put(self, data: PortData) -> Ports {
        Ports { ports: self.ports.insert(data.local_port, data), ..self }
    }

    /// The table with a newly allocated port in `state`.
    pub open spec fn created(self, local_port: u32, state: PortState) -> Ports {
        Ports {
            used: self.used.insert(local_port),
            ports: self.ports.insert(local_port, PortData::initial(local_port, state)),
            ..self
        }
    }

    /// The table once the port has been released.
    pub open spec fn released(self, port: u32) -> Ports {
        Ports { used: self.used.remove(port), ports: self.ports.remove(port), ..self }
    }

    /// The channel message is one that a channel or request of this multiplexer
    /// can send in its present state.
    pub open spec fn expects<Content>(self, msg: ChannelMsg<Content>) -> bool {
        match msg {
            ChannelMsg::SendMsg { .. } => true,
            ChannelMsg::SenderDropped { local_port } => self.connected(local_port),
            ChannelMsg::ReceiverClosed { local_port, .. } => self.connected(local_port),
            ChannelMsg::Accepted { local_port } => self.requested_by_remote(local_port),
            ChannelMsg::Rejected { local_port, .. } => self.requested_by_remote(local_port),
            ChannelMsg::ReceiveBufferReachedResumeLength { local_port } => self.connected(
                local_port,
            ),
        }
    }

    /// What comes of a message from a local channel.
    pub open spec fn on_channel_msg<Content>(self, msg: ChannelMsg<Content>) -> (
        Ports,
        Seq<Action<Content>>,
    ) {
        match msg {
            // Send data from channel.
            ChannelMsg::SendMsg { remote_port, content } => (
                self,
                seq![Action::Send(MultiplexMsg::Data { port: remote_port, content })],
            ),
            // Local channel sender has been dropped.
            ChannelMsg::SenderDropped { local_port } => {
                let port = self.ports[local_port];
                (
                    self.put(PortData { tx_finished: true, ..port }),
                    seq![Action::Send(MultiplexMsg::Finish { port: port.peer() })],
                )
            },
            // Local channel receiver has been closed: data that is under way is
            // still received after a graceful end, and thrown away after another.
            ChannelMsg::ReceiverClosed { local_port, gracefully } => {
                let port = self.ports[local_port];
                let hangup = Action::Send(
                    MultiplexMsg::Hangup { port: port.peer(), graceful: gracefully },
                );
                if gracefully {
                    (self, seq![hangup])
                } else {
                    (
                        self.put(PortData { rx_buffer: false, ..port }),
                        seq![Action::DropBuffer { local_port }, hangup],
                    )
                }
            },
            // Local service has accepted the connection.
            ChannelMsg::Accepted { local_port } => {
                let port = self.ports[local_port];
                (
                    self.put(
                        PortData {
                            state: PortState::Connected { remote_port: port.peer() },
                            ..port
                        },
                    ),
                    seq![
                        Action::Send(
                            MultiplexMsg::Opened {
                                client_port: port.peer(),
                                server_port: local_port,
                            },
                        ),
                    ],
                )
            },
            // Local service has rejected the connection.
            ChannelMsg::Rejected { local_port, reason } => (
                self.released(local_port),
                seq![
                    Action::Send(
                        MultiplexMsg::Refused {
                            client_port: self.ports[local_port].peer(),
                            reason,
                        },
                    ),
                    Action::RemovePort { local_port },
                ],
            ),
            // Receive buffer of local channel has room again.
            ChannelMsg::ReceiveBufferReachedResumeLength { local_port } => {
                let port = self.ports[local_port];
                (
                    self,
                    if port.rx_buffer {
                        seq![
                            Action::ResumeIfDrained {
                                local_port,
                                resume: MultiplexMsg::Resume { port: port.peer() },
                            },
                        ]
                    } else {
                        Seq::empty()
                    },
                )
            },
        }
    }

    /// What comes of a message from the other side. `fresh` is the port that is
    /// allocated where the message needs one.
    pub open spec fn on_message<Content, TransportStreamError>(
        self,
        msg: MultiplexMsg<Content>,
        fresh: u32,
    ) -> Reaction<Content, TransportStreamError> {
        match msg {
            MultiplexMsg::Open { service, client_port } => if exhausted(self.used) {
                Err(Fault::PortsExhausted)
            } else {
                Ok(
                    (
                        self.created(
                            fresh,
                            PortState::RemoteRequestingLocalService { remote_port: client_port },
                        ),
                        seq![
                            Action::CreatePort { cfg: self.cfg.buffer_cfg(fresh) },
                            Action::Serve {
                                service,
                                request: RemoteConnectToServiceRequest {
                                    channel_data: Some(
                                        ChannelData {
                                            local_port: fresh,
                                            remote_port: client_port,
                                        },
                                    ),
                                },
                            },
                        ],
                    ),
                )
            },
            MultiplexMsg::Opened { client_port, server_port } => self.on_opened(
                client_port,
                server_port,
            ),
            MultiplexMsg::Refused { client_port, reason } => self.on_refused(client_port, reason),
            MultiplexMsg::Pause { port } => self.on_port_message(port, PortMessage::Pause),
            MultiplexMsg::Resume { port } => self.on_port_message(port, PortMessage::Resume),
            MultiplexMsg::Finish { port } => self.on_port_message(port, PortMessage::Finish),
            MultiplexMsg::FinishAck { port } => self.on_port_message(port, PortMessage::FinishAck),
            MultiplexMsg::Hangup { port, graceful } => self.on_port_message(
                port,
                PortMessage::Hangup { graceful },
            ),
            MultiplexMsg::Data { port, content } => self.on_port_message(
                port,
                PortMessage::Data(content),
            ),
        }
    }

    /// What comes of the reply that a connection has been opened. Only a port for
    /// which this side asked can get one.
    pub open spec fn on_opened<Content, TransportStreamError>(
        self,
        client_port: u32,
        server_port: u32,
    ) -> Reaction<Content, TransportStreamError> {
        if self.requested_by_local(client_port) {
            let data = ChannelData { local_port: client_port, remote_port: server_port };
            Ok(
                (
                    self.put(
                        PortData {
                            state: PortState::Connected { remote_port: server_port },
                            ..self.ports[client_port]
                        },
                    ),
                    seq![
                        Action::Respond {
                            local_port: client_port,
                            response: ConnectToRemoteServiceResponse::Accepted {
                                sender: ChannelSender::at(data),
                                receiver: ChannelReceiver::at(data),
                            },
                        },
                    ],
                ),
            )
        } else if self.client_connected(client_port) {
            Err(Fault::Protocol(ProtocolViolation::OpenedForConnectedPort))
        } else {
            Err(Fault::Protocol(ProtocolViolation::OpenedForNoPort))
        }
    }

    /// What comes of the reply that a connection has been refused. Only a port for
    /// which this side asked can get one.
    pub open spec fn on_refused<Content, TransportStreamError>(
        self,
        client_port: u32,
        reason: Option<Content>,
    ) -> Reaction<Content, TransportStreamError> {
        if self.requested_by_local(client_port) {
            Ok(
                (
                    self.released(client_port),
                    seq![
                        Action::Respond {
                            local_port: client_port,
                            response: ConnectToRemoteServiceResponse::Rejected { reason },
                        },
                        Action::RemovePort { local_port: client_port },
                    ],
                ),
            )
        } else if self.client_connected(client_port) {
            Err(Fault::Protocol(ProtocolViolation::RefusedForConnectedPort))
        } else {
            Err(Fault::Protocol(ProtocolViolation::RefusedForNoPort))
        }
    }

    /// What comes of a message from the other side about the connection on
    /// `local_port`. Flow control of a port that is not connected has nothing to
    /// act on.
    pub open spec fn on_port_message<Content, TransportStreamError>(
        self,
        local_port: u32,
        msg: PortMessage<Content>,
    ) -> Reaction<Content, TransportStreamError> {
        if !self.connected(local_port) {
            if msg.is_flow_control() {
                Ok((self, Seq::empty()))
            } else {
                Err(Fault::Protocol(ProtocolViolation::PortNotConnected))
            }
        } else {
            let port = self.ports[local_port];
            Ok(
                match msg {
                    // Sending is paused and resumed only as long as it is not closed.
                    PortMessage::Pause => (
                        self,
                        if port.tx_lock {
                            seq![Action::PauseSending { local_port }]
                        } else {
                            Seq::empty()
                        },
                    ),
                    PortMessage::Resume => (
                        self,
                        if port.tx_lock {
                            seq![Action::ResumeSending { local_port }]
                        } else {
                            Seq::empty()
                        },
                    ),
                    // The receive stream ends, and this is acknowledged.
                    PortMessage::Finish => (
                        self.put(PortData { rx_finished: true, rx_buffer: false, ..port }),
                        if port.rx_buffer {
                            seq![
                                Action::FinishBuffer { local_port },
                                Action::Send(MultiplexMsg::FinishAck { port: port.peer() }),
                            ]
                        } else {
                            seq![Action::Send(MultiplexMsg::FinishAck { port: port.peer() })]
                        },
                    ),
                    PortMessage::FinishAck => (
                        self.put(PortData { tx_finished_ack: true, ..port }),
                        Seq::empty(),
                    ),
                    // Sending is closed, once.
                    PortMessage::Hangup { graceful } => (
                        self.put(PortData { tx_lock: false, ..port }),
                        if port.tx_lock {
                            seq![Action::CloseSending { local_port, gracefully: graceful }]
                        } else {
                            Seq::empty()
                        },
                    ),
                    // Data is thrown away where nobody receives it any more.
                    PortMessage::Data(content) => (
                        self,
                        if port.rx_buffer {
                            seq![
                                Action::Enqueue {
                                    local_port,
                                    content,
                                    pause: MultiplexMsg::Pause { port: port.peer() },
                                },
                            ]
                        } else {
                            Seq::empty()
                        },
                    ),
                },
            )
        }
    }

    /// What comes of a request to connect to a service of the other side, where
    /// `fresh` is the port that is allocated for it.
    pub open spec fn on_connect<Content, TransportStreamError>(
        self,
        service: u32,
        fresh: u32,
    ) -> Reaction<Content, TransportStreamError> {
        if exhausted(self.used) {
            Err(Fault::PortsExhausted)
        } else {
            Ok(
                (
                    self.created(fresh, PortState::LocalRequestingRemoteService),
                    seq![
                        Action::CreatePort { cfg: self.cfg.buffer_cfg(fresh) },
                        Action::Send(MultiplexMsg::Open { service, client_port: fresh }),
                    ],
                ),
            )
        }
    }

    /// What comes of an event, where `fresh` is the port that is allocated if the
    /// event needs one.
    pub open spec fn on_event<Content, TransportStreamError>(
        self,
        event: LoopEvent<Content, TransportStreamError>,
        fresh: u32,
    ) -> Reaction<Content, TransportStreamError> {
        match event {
            LoopEvent::ChannelMsg(msg) => Ok(self.on_channel_msg(msg)),
            LoopEvent::ReceiveMsg(Ok(msg)) => self.on_message(msg, fresh),
            LoopEvent::ReceiveMsg(Err(error)) => Err(Fault::ReceiveError(error)),
            LoopEvent::ConnectToRemoteServiceRequest { service } => self.on_connect(service, fresh),
        }
    }
}

/// A message from the other side about an open connection.
pub enum PortMessage<Content> {
    Pause,
    Resume,
    Finish,
    FinishAck,
    Hangup { graceful: bool },
    Data(Content),
}

impl<Content> PortMessage<Content> {
    /// The message pauses or resumes sending.
    pub open spec fn is_flow_control(self) -> bool {
        self is Pause || self is Resume
    }

    /// What is done about the message where its port is not connected.
    fn unconnected<TransportStreamError>(&self) -> (result: Result<
        Vec<Action<Content>>,
        Fault<TransportStreamError>,
    >)
        ensures
            match result {
                Ok(actions) => self.is_flow_control() && actions@ == Seq::<Action<Content>>::empty(),
                Err(fault) => {
                    &&& !self.is_flow_control()
                    &&& fault == Fault::<TransportStreamError>::Protocol(
                        ProtocolViolation::PortNotConnected,
                    )
                },
            },
    {
        match self {
            PortMessage::Pause | PortMessage::Resume => Ok(Vec::new()),
            _ => Err(Fault::Protocol(ProtocolViolation::PortNotConnected)),
        }
    }
}

/// A port has to be allocated for the event.
pub open spec fn needs_port<Content, TransportStreamError>(
    event: LoopEvent<Content, TransportStreamError>,
) -> bool {
    match event {
        LoopEvent::ReceiveMsg(Ok(MultiplexMsg::Open { .. })) => true,
        LoopEvent::ConnectToRemoteServiceRequest { .. } => true,
        _ => false,
    }
}

/// An event that comes from this side is one that the table expects. What the
/// other side sends is not restricted.
pub open spec fn event_expected<Content, TransportStreamError>(
    ports: Ports,
    event: LoopEvent<Content, TransportStreamError>,
) -> bool {
    event matches LoopEvent::ChannelMsg(msg) ==> ports.expects(msg)
}

/// `result`, and the table `after` it, are as `reaction` to an event on the table
/// `before` says. A fault leaves the table as it was.
pub open spec fn reacts<Content, TransportStreamError>(
    reaction: Reaction<Content, TransportStreamError>,
    before: Ports,
    after: Ports,
    result: Result<Vec<Action<Content>>, Fault<TransportStreamError>>,
) -> bool {
    match (reaction, result) {
        (Ok((ports, actions)), Ok(done)) => after == ports && done@ == actions,
        (Err(fault), Err(error)) => after == before && error == fault,
        _ => false,
    }
}

/// What the event loop does next.
pub enum RunStep<Content, TransportSinkError, TransportStreamError> {
    /// Perform the actions in order, then wait for the next event.
    Perform(Vec<Action<Content>>),
    /// Leave the loop.
    Return(Result<(), MultiplexRunError<TransportSinkError, TransportStreamError>>),
}

/// The ports of a multiplexer.
pub struct PortTable {
    cfg: Cfg,
    port_pool: NumberAllocator,
    ports: HashMap<u32, PortData>,
}

impl View for PortTable {
    type V = Ports;

    closed spec fn view(&self) -> Ports {
        Ports { cfg: self.cfg, used: self.port_pool@, ports: self.ports@ }
    }
}

impl PortTable {
    /// Creates an empty port table.
    pub fn new(cfg: Cfg) -> (table: PortTable)
        requires
            cfg.valid(),
        ensures
            table@ == (Ports { cfg, used: Set::empty(), ports: Map::empty() }),
            table@.wf(),
    {
        let table = PortTable { cfg, port_pool: NumberAllocator::new(), ports: HashMap::new() };
        assert(table@.used =~= table@.ports.dom());
        table
    }

    /// What is known of a port.
    pub fn port(&self, port: u32) -> (data: Option<PortData>)
        ensures
            data == (if self@.ports.contains_key(port) {
                Some(self@.ports[port])
            } else {
                None
            }),
    {
        match self.ports.get(&port) {
            Some(data) => Some(*data),
            None => None,
        }
    }

    /// Whether the channel message is one that a channel or request of this
    /// multiplexer can send in its present state.
    pub fn is_expected<Content>(&self, msg: &ChannelMsg<Content>) -> (answer: bool)
        ensures
            answer == self@.expects(*msg),
    {
        let local_port: u32 = match msg {
            ChannelMsg::SendMsg { .. } => {
                return true;
            },
            ChannelMsg::SenderDropped { local_port } => *local_port,
            ChannelMsg::ReceiverClosed { local_port, .. } => *local_port,
            ChannelMsg::Accepted { local_port } => *local_port,
            ChannelMsg::Rejected { local_port, .. } => *local_port,
            ChannelMsg::ReceiveBufferReachedResumeLength { local_port } => *local_port,
        };
        let answers_request: bool = match msg {
            ChannelMsg::Accepted { .. } => true,
            ChannelMsg::Rejected { .. } => true,
            _ => false,
        };
        match self.port(local_port) {
            None => false,
            Some(port) => match port.state {
                PortState::LocalRequestingRemoteService => false,
                PortState::RemoteRequestingLocalService { .. } => answers_request,
                PortState::Connected { .. } => !answers_request,
            },
        }
    }

    /// Replaces what is known of a port that is in the table.
    fn put(&mut self, data: PortData)
        requires
            old(self)@.wf(),
            old(self)@.ports.contains_key(data.local_port),
        ensures
            final(self)@ == old(self)@.put(data),
            final(self)@.wf(),
    {
        self.ports.insert(data.local_port, data);
        assert(self@.ports.dom() =~= old(self)@.ports.dom());
    }

    /// Releases a port that is in the table.
    fn release(&mut self, port: u32)
        requires
            old(self)@.wf(),
            old(self)@.ports.contains_key(port),
        ensures
            final(self)@ == old(self)@.released(port),
            final(self)@.wf(),
    {
        self.ports.remove(&port);
        self.port_pool.release(port);
        assert(self@.ports.dom() =~= old(self)@.ports.dom().remove(port));
    }

    /// Processes a message from a local channel.
    pub fn channel_msg<Content>(&mut self, msg: ChannelMsg<Content>) -> (actions: Vec<
        Action<Content>,
    >)
        requires
            old(self)@.wf(),
            old(self)@.expects(msg),
        ensures
            (final(self)@, actions@) == old(self)@.on_channel_msg(msg),
            final(self)@.wf(),
    {
        match msg {
            ChannelMsg::SendMsg { remote_port, content } => {
                vec![Action::Send(MultiplexMsg::Data { port: remote_port, content })]
            },
            ChannelMsg::SenderDropped { local_port } => {
                let port = self.port(local_port).unwrap();
                let remote_port: u32 = port.remote_port();
                self.put(PortData { tx_finished: true, ..port });
                vec![Action::Send(MultiplexMsg::Finish { port: remote_port })]
            },
            ChannelMsg::ReceiverClosed { local_port, gracefully } => {
                let port = self.port(local_port).unwrap();
                let hangup = Action::Send(
                    MultiplexMsg::Hangup { port: port.remote_port(), graceful: gracefully },
                );
                if gracefully {
                    vec![hangup]
                } else {
                    self.put(PortData { rx_buffer: false, ..port });
                    vec![Action::DropBuffer { local_port }, hangup]
                }
            },
            ChannelMsg::Accepted { local_port } => {
                let port = self.port(local_port).unwrap();
                match port.state {
                    PortState::RemoteRequestingLocalService { remote_port } => {
                        self.put(PortData { state: PortState::Connected { remote_port }, ..port });
                        vec![
                            Action::Send(
                                MultiplexMsg::Opened {
                                    client_port: remote_port,
                                    server_port: local_port,
                                },
                            ),
                        ]
                    },
                    _ => unreached(),
                }
            },
            ChannelMsg::Rejected { local_port, reason } => {
                let port = self.port(local_port).unwrap();
                match port.state {
                    PortState::RemoteRequestingLocalService { remote_port } => {
                        self.release(local_port);
                        vec![
                            Action::Send(
                                MultiplexMsg::Refused { client_port: remote_port, reason },
                            ),
                            Action::RemovePort { local_port },
                        ]
                    },
                    _ => unreached(),
                }
            },
            ChannelMsg::ReceiveBufferReachedResumeLength { local_port } => {
                let port = self.port(local_port).unwrap();
                if port.rx_buffer {
                    vec![
                        Action::ResumeIfDrained {
                            local_port,
                            resume: MultiplexMsg::Resume { port: port.remote_port() },
                        },
                    ]
                } else {
                    Vec::new()
                }
            },
        }
    }

    /// Processes a message from the other side about the connection on
    /// `local_port`.
    pub fn port_message<Content, TransportStreamError>(
        &mut self,
        local_port: u32,
        msg: PortMessage<Content>,
    ) -> (result: Result<Vec<Action<Content>>, Fault<TransportStreamError>>)
        requires
            old(self)@.wf(),
        ensures
            reacts(
                old(self)@.on_port_message(local_port, msg),
                old(self)@,
                final(self)@,
                result,
            ),
            final(self)@.wf(),
    {
        let port = match self.port(local_port) {
            Some(port) => port,
            None => {
                return msg.unconnected();
            },
        };
        let remote_port: u32 = match port.state {
            PortState::Connected { remote_port } => remote_port,
            _ => {
                return msg.unconnected();
            },
        };
        let mut actions: Vec<Action<Content>> = Vec::new();
        match msg {
            PortMessage::Pause => {
                if port.tx_lock {
                    actions.push(Action::PauseSending { local_port });
                }
            },
            PortMessage::Resume => {
                if port.tx_lock {
                    actions.push(Action::ResumeSending { local_port });
                }
            },
            PortMessage::Finish => {
                self.put(PortData { rx_finished: true, rx_buffer: false, ..port });
                if port.rx_buffer {
                    actions.push(Action::FinishBuffer { local_port });
                }
                actions.push(Action::Send(MultiplexMsg::FinishAck { port: remote_port }));
            },
            PortMessage::FinishAck => {
                self.put(PortData { tx_finished_ack: true, ..port });
            },
            PortMessage::Hangup { graceful } => {
                self.put(PortData { tx_lock: false, ..port });
                if port.tx_lock {
                    actions.push(Action::CloseSending { local_port, gracefully: graceful });
                }
            },
            PortMessage::Data(content) => {
                if port.rx_buffer {
                    actions.push(
                        Action::Enqueue {
                            local_port,
                            content,
                            pause: MultiplexMsg::Pause { port: remote_port },
                        },
                    );
                }
            },
        }
        assert(actions@ =~= old(self)@.on_port_message::<Content, TransportStreamError>(
            local_port,
            msg,
        )->Ok_0.1);
        Ok(actions)
    }

    /// Processes the reply that a connection has been opened.
    pub fn opened<Content, TransportStreamError>(&mut self, client_port: u32, server_port: u32) -> (result:
        Result<Vec<Action<Content>>, Fault<TransportStreamError>>)
        requires
            old(self)@.wf(),
        ensures
            reacts(
                old(self)@.on_opened(client_port, server_port),
                old(self)@,
                final(self)@,
                result,
            ),
            final(self)@.wf(),
    {
        let port = match self.port(client_port) {
            Some(port) => port,
            None => {
                return Err(Fault::Protocol(ProtocolViolation::OpenedForNoPort));
            },
        };
        match port.state {
            PortState::LocalRequestingRemoteService => {
                self.put(
                    PortData { state: PortState::Connected { remote_port: server_port }, ..port },
                );
                let data = ChannelData { local_port: client_port, remote_port: server_port };
                let (sender, receiver) = data.instantiate();
                let actions = vec![
                    Action::Respond {
                        local_port: client_port,
                        response: ConnectToRemoteServiceResponse::Accepted { sender, receiver },
                    },
                ];
                assert(actions@ =~= old(self)@.on_opened::<Content, TransportStreamError>(
                    client_port,
                    server_port,
                )->Ok_0.1);
                Ok(actions)
            },
            PortState::Connected { .. } => {
                if port.client {
                    Err(Fault::Protocol(ProtocolViolation::OpenedForConnectedPort))
                } else {
                    Err(Fault::Protocol(ProtocolViolation::OpenedForNoPort))
                }
            },
            PortState::RemoteRequestingLocalService { .. } => Err(
                Fault::Protocol(ProtocolViolation::OpenedForNoPort),
            ),
        }
    }

    /// Processes the reply that a connection has been refused.
    pub fn refused<Content, TransportStreamError>(
        &mut self,
        client_port: u32,
        reason: Option<Content>,
    ) -> (result: Result<Vec<Action<Content>>, Fault<TransportStreamError>>)
        requires
            old(self)@.wf(),
        ensures
            reacts(old(self)@.on_refused(client_port, reason), old(self)@, final(self)@, result),
            final(self)@.wf(),
    {
        let port = match self.port(client_port) {
            Some(port) => port,
            None => {
                return Err(Fault::Protocol(ProtocolViolation::RefusedForNoPort));
            },
        };
        match port.state {
            PortState::LocalRequestingRemoteService => {
                self.release(client_port);
                Ok(
                    vec![
                        Action::Respond {
                            local_port: client_port,
                            response: ConnectToRemoteServiceResponse::Rejected { reason },
                        },
                        Action::RemovePort { local_port: client_port },
                    ],
                )
            },
            PortState::Connected { .. } => {
                if port.client {
                    Err(Fault::Protocol(ProtocolViolation::RefusedForConnectedPort))
                } else {
                    Err(Fault::Protocol(ProtocolViolation::RefusedForNoPort))
                }
            },
            PortState::RemoteRequestingLocalService { .. } => Err(
                Fault::Protocol(ProtocolViolation::RefusedForNoPort),
            ),
        }
    }

    /// The table is well-formed but for one port that is allocated and not in it.
    spec fn awaits(self, local_port: u32, before: Ports) -> bool {
        &&& before.wf()
        &&& !before.used.contains(local_port)
        &&& self@ == (Ports { used: before.used.insert(local_port), ..before })
    }

    /// Puts the port that was allocated into the table.
    fn create(&mut self, local_port: u32, state: PortState, Ghost(before): Ghost<Ports>) -> (cfg:
        ChannelReceiverBufferCfg)
        requires
            old(self).awaits(local_port, before),
        ensures
            final(self)@ == before.created(local_port, state),
            final(self)@.wf(),
            cfg == before.cfg.buffer_cfg(local_port),
    {
        self.ports.insert(local_port, PortData::new(local_port, state));
        assert(self@.ports.dom() =~= before.ports.dom().insert(local_port));
        self.cfg.receive_buffer(local_port)
    }

    /// Puts the port that was allocated for a service request of the other side
    /// into the table, and hands the request to the local service.
    fn serve<Content>(
        &mut self,
        local_port: u32,
        service: u32,
        client_port: u32,
        Ghost(before): Ghost<Ports>,
    ) -> (actions: Vec<Action<Content>>)
        requires
            old(self).awaits(local_port, before),
            !exhausted(before.used),
        ensures
            before.on_message::<Content, ()>(
                MultiplexMsg::Open { service, client_port },
                local_port,
            ) == Ok::<_, Fault<()>>((final(self)@, actions@)),
            final(self)@.wf(),
    {
        let cfg = self.create(
            local_port,
            PortState::RemoteRequestingLocalService { remote_port: client_port },
            Ghost(before),
        );
        let request = RemoteConnectToServiceRequest::new(
            ChannelData { local_port, remote_port: client_port },
        );
        vec![Action::CreatePort { cfg }, Action::Serve { service, request }]
    }

    /// Puts the port that was allocated for a local request into the table, and
    /// passes the request on to the other side.
    fn connect<Content>(&mut self, local_port: u32, service: u32, Ghost(before): Ghost<Ports>) -> (actions:
        Vec<Action<Content>>)
        requires
            old(self).awaits(local_port, before),
            !exhausted(before.used),
        ensures
            before.on_connect::<Content, ()>(service, local_port) == Ok::<_, Fault<()>>(
                (final(self)@, actions@),
            ),
            final(self)@.wf(),
    {
        let cfg = self.create(local_port, PortState::LocalRequestingRemoteService, Ghost(before));
        vec![
            Action::CreatePort { cfg },
            Action::Send(MultiplexMsg::Open { service, client_port: local_port }),
        ]
    }

    /// Processes an event, allocating `fresh` if the event needs a port.
    pub fn handle_on<Content, TransportStreamError>(
        &mut self,
        event: LoopEvent<Content, TransportStreamError>,
        fresh: u32,
    ) -> (result: Result<Vec<Action<Content>>, Fault<TransportStreamError>>)
        requires
            old(self)@.wf(),
            event_expected(old(self)@, event),
            needs_port(event) ==> !old(self)@.used.contains(fresh),
        ensures
            reacts(old(self)@.on_event(event, fresh), old(self)@, final(self)@, result),
            final(self)@.wf(),
    {
        match event {
            LoopEvent::ReceiveMsg(Ok(MultiplexMsg::Open { service, client_port })) => {
                if self.port_pool.is_exhausted() {
                    return Err(Fault::PortsExhausted);
                }
                self.port_pool.claim(fresh);
                Ok(self.serve(fresh, service, client_port, Ghost(old(self)@)))
            },
            LoopEvent::ConnectToRemoteServiceRequest { service } => {
                if self.port_pool.is_exhausted() {
                    return Err(Fault::PortsExhausted);
                }
                self.port_pool.claim(fresh);
                Ok(self.connect(fresh, service, Ghost(old(self)@)))
            },
            event => self.handle_without_port(event, Ghost(fresh)),
        }
    }

    /// Processes an event, allocating a random port if the event needs one.
    pub fn handle<Content, TransportStreamError>(
        &mut self,
        event: LoopEvent<Content, TransportStreamError>,
    ) -> (result: Result<Vec<Action<Content>>, Fault<TransportStreamError>>)
        requires
            old(self)@.wf(),
            event_expected(old(self)@, event),
        ensures
            exists|fresh: u32|
                (needs_port(event) && !exhausted(old(self)@.used)
                    ==> !old(self)@.used.contains(fresh)) && #[trigger] reacts(
                    old(self)@.on_event(event, fresh),
                    old(self)@,
                    final(self)@,
                    result,
                ),
            final(self)@.wf(),
    {
        match event {
            LoopEvent::ReceiveMsg(Ok(MultiplexMsg::Open { service, client_port })) => {
                match self.port_pool.allocate() {
                    Ok(server_port) => {
                        let result = Ok(
                            self.serve(server_port, service, client_port, Ghost(old(self)@)),
                        );
                        assert(reacts(
                            old(self)@.on_event(event, server_port),
                            old(self)@,
                            self@,
                            result,
                        ));
                        result
                    },
                    Err(_) => {
                        let result = Err(Fault::PortsExhausted);
                        assert(reacts(old(self)@.on_event(event, 0), old(self)@, self@, result));
                        result
                    },
                }
            },
            LoopEvent::ConnectToRemoteServiceRequest { service } => {
                match self.port_pool.allocate() {
                    Ok(client_port) => {
                        let result = Ok(self.connect(client_port, service, Ghost(old(self)@)));
                        assert(reacts(
                            old(self)@.on_event(event, client_port),
                            old(self)@,
                            self@,
                            result,
                        ));
                        result
                    },
                    Err(_) => {
                        let result = Err(Fault::PortsExhausted);
                        assert(reacts(old(self)@.on_event(event, 0), old(self)@, self@, result));
                        result
                    },
                }
            },
            event => self.handle_without_port(event, Ghost(0)),
        }
    }

    /// Processes an event that needs no port.
    fn handle_without_port<Content, TransportStreamError>(
        &mut self,
        event: LoopEvent<Content, TransportStreamError>,
        Ghost(fresh): Ghost<u32>,
    ) -> (result: Result<Vec<Action<Content>>, Fault<TransportStreamError>>)
        requires
            old(self)@.wf(),
            event_expected(old(self)@, event),
            !needs_port(event),
        ensures
            reacts(old(self)@.on_event(event, fresh), old(self)@, final(self)@, result),
            final(self)@.wf(),
    {
        match event {
            LoopEvent::ChannelMsg(msg) => Ok(self.channel_msg(msg)),
            LoopEvent::ReceiveMsg(Err(error)) => Err(Fault::ReceiveError(error)),
            LoopEvent::ReceiveMsg(Ok(msg)) => match msg {
                MultiplexMsg::Opened { client_port, server_port } => self.opened(
                    client_port,
                    server_port,
                ),
                MultiplexMsg::Refused { client_port, reason } => self.refused(client_port, reason),
                MultiplexMsg::Pause { port } => self.port_message(port, PortMessage::Pause),
                MultiplexMsg::Resume { port } => self.port_message(port, PortMessage::Resume),
                MultiplexMsg::Finish { port } => self.port_message(port, PortMessage::Finish),
                MultiplexMsg::FinishAck { port } => self.port_message(port, PortMessage::FinishAck),
                MultiplexMsg::Hangup { port, graceful } => self.port_message(
                    port,
                    PortMessage::Hangup { graceful },
                ),
                MultiplexMsg::Data { port, content } => self.port_message(
                    port,
                    PortMessage::Data(content),
                ),
                MultiplexMsg::Open { .. } => unreached(),
            },
            LoopEvent::ConnectToRemoteServiceRequest { .. } => unreached(),
        }
    }

    /// The link has taken a message, or failed to: the multiplexer goes on with what
    /// it was doing, or stops with the error of the link.
    pub fn sent<Content, TransportSinkError, TransportStreamError>(
        &self,
        result: Result<(), TransportSinkError>,
    ) -> (step: RunStep<Content, TransportSinkError, TransportStreamError>)
        ensures
            match result {
                Ok(()) => step matches RunStep::Perform(actions) && actions@ == Seq::<
                    Action<Content>,
                >::empty(),
                Err(error) => step == RunStep::<
                    Content,
                    TransportSinkError,
                    TransportStreamError,
                >::Return(Err(MultiplexRunError::SendError(error))),
            },
    {
        match result {
            Ok(()) => RunStep::Perform(Vec::new()),
            Err(error) => RunStep::Return(Err(MultiplexRunError::SendError(error))),
        }
    }

    /// One turn of the event loop. `None` stands for the end of all events.
    pub fn run_step<Content, TransportSinkError, TransportStreamError>(
        &mut self,
        event: Option<LoopEvent<Content, TransportStreamError>>,
    ) -> (step: RunStep<Content, TransportSinkError, TransportStreamError>)
        requires
            old(self)@.wf(),
            event matches Some(e) ==> event_expected(old(self)@, e),
        ensures
            match event {
                None => {
                    &&& step == RunStep::<
                        Content,
                        TransportSinkError,
                        TransportStreamError,
                    >::Return(Ok(()))
                    &&& final(self)@ == old(self)@
                },
                Some(e) => exists|fresh: u32|
                    (needs_port(e) && !exhausted(old(self)@.used)
                        ==> !old(self)@.used.contains(fresh)) && match #[trigger] old(
                        self,
                    )@.on_event(e, fresh) {
                        Ok((ports, actions)) => {
                            &&& final(self)@ == ports
                            &&& step matches RunStep::Perform(done) && done@ == actions
                        },
                        Err(fault) => {
                            &&& final(self)@ == old(self)@
                            &&& step matches RunStep::Return(Err(error)) && fault.reported_as(error)
                        },
                    },
            },
            final(self)@.wf(),
    {
        match event {
            None => RunStep::Return(Ok(())),
            Some(event) => match self.handle(event) {
                Ok(actions) => RunStep::Perform(actions),
                Err(fault) => RunStep::Return(Err(fault.into_run_error())),
            },
        }
    }
}

} // verus!

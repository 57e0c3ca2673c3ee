//! Two multiplexers at the two ends of one link, and what holds of them at every
//! moment, whatever their channels do and however long messages are under way.

use crate::channel::{law_stream_yields_what_is_dequeued, stream_of, ChannelReceiver};
use crate::laws::{answer_to, at_most_one, data_for, enqueued_by, paired, sent_by};
use crate::message::{ChannelMsg, ChannelReceiveError, MultiplexMsg};
use crate::ports::{
    event_expected, needs_port, Action, Cfg, Fault, LoopEvent, PortData, PortState, Ports,
    Reaction,
};
use crate::receive_buffer::{
    brought, closed_by, enqueuer_steps, flow_after_all, if_asked,
    law_buffer_follows_its_enqueuer, law_ended_buffer_is_read_to_the_end, law_first_in_first_out,
    outcomes, waits_for_room, BufferStep, ChannelReceiverBufferCfg,
    ChannelReceiverBufferCloseReason,
};
use vstd::prelude::*;

verus! {

/// Two multiplexers and the messages that are under way between them, oldest
/// first. The link loses none and changes no order.
#[verifier::ext_equal]
pub struct Conversation<Content> {
    pub left: Ports,
    pub right: Ports,
    pub to_right: Seq<MultiplexMsg<Content>>,
    pub to_left: Seq<MultiplexMsg<Content>>,
}

/// What makes a multiplexer act.
pub enum Cause<Content> {
    /// A local channel or service says something.
    Said(ChannelMsg<Content>),
    /// Somebody asks for a service of the other side.
    Connect { service: u32 },
    /// The oldest message that is under way to it arrives.
    Arrival,
}

/// One turn of the event loop of one of the two multiplexers.
pub struct Turn<Content> {
    /// It is the turn of the left multiplexer.
    pub on_left: bool,
    pub cause: Cause<Content>,
    /// The port that is allocated if one is needed.
    pub fresh: u32,
    /// The receive buffer, if one is asked, calls for a message of flow control.
    pub flow: bool,
}

/// A channel of `ports` is connected to `remote_port`.
pub open spec fn has_peer(ports: Ports, remote_port: u32) -> bool {
    exists|a: u32| #[trigger] ports.connected(a) && ports.ports[a].peer() == remote_port
}

/// A channel of `ports` is connected to `remote_port` and its sender is there.
pub open spec fn sends_to(ports: Ports, remote_port: u32) -> bool {
    exists|a: u32| #[trigger]
        ports.connected(a) && ports.ports[a].peer() == remote_port && !ports.ports[a].tx_finished
}

/// What the senders of one side have sent to `port` of the other in the course of
/// `turns`.
pub open spec fn sent_to<Content>(turns: Seq<Turn<Content>>, on_left: bool, port: u32) -> Seq<
    Content,
>
    decreases turns.len(),
{
    if turns.len() == 0 {
        Seq::empty()
    } else {
        let sent = sent_to(turns.drop_last(), on_left, port);
        if turns.last().on_left == on_left {
            sent + sent_in(turns.last(), port)
        } else {
            sent
        }
    }
}

/// What is sent to `port` in the turn.
pub open spec fn sent_in<Content>(turn: Turn<Content>, port: u32) -> Seq<Content> {
    match turn.cause {
        Cause::Said(ChannelMsg::SendMsg { remote_port, content }) if remote_port == port => seq![
            content,
        ],
        _ => Seq::empty(),
    }
}

/// What `actions` do to the receive buffer of `port`, in order.
pub open spec fn performed_by<Content>(actions: Seq<Action<Content>>, port: u32) -> Seq<
    BufferStep<Content>,
>
    decreases actions.len(),
{
    if actions.len() == 0 {
        Seq::empty()
    } else {
        buffer_step(actions[0], port) + performed_by(actions.drop_first(), port)
    }
}

/// What `action` does to the receive buffer of `port`.
pub open spec fn buffer_step<Content>(action: Action<Content>, port: u32) -> Seq<
    BufferStep<Content>,
> {
    match action {
        Action::Enqueue { local_port, content, .. } if local_port == port => seq![
            BufferStep::Enqueue(content),
        ],
        Action::FinishBuffer { local_port } if local_port == port => seq![BufferStep::Close],
        Action::DropBuffer { local_port } if local_port == port => seq![BufferStep::Dropped],
        _ => Seq::empty(),
    }
}

/// The receiver on `port` of one side has been dropped without having been closed
/// in the course of `turns`.
pub open spec fn hung_up<Content>(turns: Seq<Turn<Content>>, on_left: bool, port: u32) -> bool
    decreases turns.len(),
{
    turns.len() > 0 && {
        ||| hung_up(turns.drop_last(), on_left, port)
        ||| turns.last().on_left == on_left && hangs_up(turns.last(), port)
    }
}

/// The receiver on `port` is dropped in the turn without having been closed.
pub open spec fn hangs_up<Content>(turn: Turn<Content>, port: u32) -> bool {
    turn.cause == Cause::<Content>::Said(
        ChannelMsg::ReceiverClosed { local_port: port, gracefully: false },
    )
}

impl<Content> Conversation<Content> {
    /// Two multiplexers that have not done anything yet.
    pub open spec fn start(left: Cfg, right: Cfg) -> Conversation<Content> {
        Conversation {
            left: Ports { cfg: left, used: Set::empty(), ports: Map::empty() },
            right: Ports { cfg: right, used: Set::empty(), ports: Map::empty() },
            to_right: Seq::empty(),
            to_left: Seq::empty(),
        }
    }

    /// The same conversation with left and right exchanged.
    pub open spec fn mirrored(self) -> Conversation<Content> {
        Conversation {
            left: self.right,
            right: self.left,
            to_right: self.to_left,
            to_left: self.to_right,
        }
    }

    /// The event that the left multiplexer sees.
    pub open spec fn event(self, cause: Cause<Content>) -> LoopEvent<Content, ()> {
        match cause {
            Cause::Said(msg) => LoopEvent::ChannelMsg(msg),
            Cause::Connect { service } => LoopEvent::ConnectToRemoteServiceRequest { service },
            Cause::Arrival => LoopEvent::ReceiveMsg(Ok(self.to_left[0])),
        }
    }

    /// The turn of the left multiplexer can take place: what is said comes from a
    /// channel or request that exists, something is there to arrive, and a port
    /// that is allocated is free.
    pub open spec fn left_possible(self, turn: Turn<Content>) -> bool {
        let event = self.event(turn.cause);
        &&& event_expected(self.left, event)
        &&& needs_port(event) ==> !self.left.used.contains(turn.fresh)
        &&& turn.cause is Arrival ==> self.to_left.len() > 0
        &&& turn.cause matches Cause::Said(ChannelMsg::SendMsg { remote_port, .. }) ==> sends_to(
            self.left,
            remote_port,
        )
    }

    /// What the left multiplexer makes of its turn.
    pub open spec fn left_reaction(self, turn: Turn<Content>) -> Reaction<Content, ()> {
        self.left.on_event(self.event(turn.cause), turn.fresh)
    }

    /// The conversation after a turn of the left multiplexer, or why that
    /// multiplexer stops.
    pub open spec fn left_after(self, turn: Turn<Content>) -> Result<Conversation<Content>, Fault<()>> {
        match self.left_reaction(turn) {
            Err(fault) => Err(fault),
            Ok((left, actions)) => Ok(
                Conversation {
                    left,
                    right: self.right,
                    to_right: self.to_right + sent_by(actions, turn.flow),
                    to_left: if turn.cause is Arrival {
                        self.to_left.drop_first()
                    } else {
                        self.to_left
                    },
                },
            ),
        }
    }

    /// The conversation with the side in question as the left one.
    pub open spec fn seen_from(self, on_left: bool) -> Conversation<Content> {
        if on_left {
            self
        } else {
            self.mirrored()
        }
    }

    /// The turn can take place.
    pub open spec fn possible(self, turn: Turn<Content>) -> bool {
        self.seen_from(turn.on_left).left_possible(turn)
    }

    /// The conversation after `turn`, or why the multiplexer whose turn it is
    /// stops.
    pub open spec fn after(self, turn: Turn<Content>) -> Result<Conversation<Content>, Fault<()>> {
        match self.seen_from(turn.on_left).left_after(turn) {
            Ok(after) => Ok(after.seen_from(turn.on_left)),
            Err(fault) => Err(fault),
        }
    }

    /// The conversation after `turns`, or why one of the multiplexers stops.
    pub open spec fn after_all(self, turns: Seq<Turn<Content>>) -> Result<
        Conversation<Content>,
        Fault<()>,
    >
        decreases turns.len(),
    {
        if turns.len() == 0 {
            Ok(self)
        } else {
            match self.after_all(turns.drop_last()) {
                Ok(before) => before.after(turns.last()),
                Err(fault) => Err(fault),
            }
        }
    }

    /// The turns can take place one after the other.
    pub open spec fn all_possible(self, turns: Seq<Turn<Content>>) -> bool
        decreases turns.len(),
    {
        turns.len() > 0 ==> {
            &&& self.all_possible(turns.drop_last())
            &&& self.after_all(turns.drop_last()) matches Ok(before) ==> before.possible(
                turns.last(),
            )
        }
    }

    /// What has been put into the receive buffer of `port` on one side in the
    /// course of `turns`.
    pub open spec fn received_at(
        self,
        turns: Seq<Turn<Content>>,
        on_left: bool,
        port: u32,
    ) -> Seq<Content>
        decreases turns.len(),
    {
        if turns.len() == 0 {
            Seq::empty()
        } else {
            let (earlier, turn) = (turns.drop_last(), turns.last());
            let received = self.received_at(earlier, on_left, port);
            match self.after_all(earlier) {
                Ok(before) if turn.on_left == on_left => received + before.seen_from(
                    on_left,
                ).left_received(turn, port),
                _ => received,
            }
        }
    }

    /// What one side has put on the link in the course of `turns`.
    pub open spec fn put_on_link(self, turns: Seq<Turn<Content>>, on_left: bool) -> Seq<
        MultiplexMsg<Content>,
    >
        decreases turns.len(),
    {
        if turns.len() == 0 {
            Seq::empty()
        } else {
            let (earlier, turn) = (turns.drop_last(), turns.last());
            let messages = self.put_on_link(earlier, on_left);
            match self.after_all(earlier) {
                Ok(before) if turn.on_left == on_left => messages + before.seen_from(
                    on_left,
                ).left_sent(turn),
                _ => messages,
            }
        }
    }

    /// What is put on the link in a turn of the left multiplexer.
    pub open spec fn left_sent(self, turn: Turn<Content>) -> Seq<MultiplexMsg<Content>> {
        match self.left_reaction(turn) {
            Ok((_, actions)) => sent_by(actions, turn.flow),
            Err(_) => Seq::empty(),
        }
    }

    /// What the multiplexer of one side has done to the receive buffer of `port` in
    /// the course of `turns`.
    pub open spec fn performed_on(
        self,
        turns: Seq<Turn<Content>>,
        on_left: bool,
        port: u32,
    ) -> Seq<BufferStep<Content>>
        decreases turns.len(),
    {
        if turns.len() == 0 {
            Seq::empty()
        } else {
            let (earlier, turn) = (turns.drop_last(), turns.last());
            let performed = self.performed_on(earlier, on_left, port);
            match self.after_all(earlier) {
                Ok(before) if turn.on_left == on_left => performed + before.seen_from(
                    on_left,
                ).left_performed(turn, port),
                _ => performed,
            }
        }
    }

    /// What is done to the receive buffer of `port` in a turn of the left
    /// multiplexer.
    pub open spec fn left_performed(self, turn: Turn<Content>, port: u32) -> Seq<
        BufferStep<Content>,
    > {
        match self.left_reaction(turn) {
            Ok((_, actions)) => performed_by(actions, port),
            Err(_) => Seq::empty(),
        }
    }

    /// What is put into the receive buffer of `port` in a turn of the left
    /// multiplexer.
    pub open spec fn left_received(self, turn: Turn<Content>, port: u32) -> Seq<Content> {
        match self.left_reaction(turn) {
            Ok((_, actions)) => enqueued_by(actions, port),
            Err(_) => Seq::empty(),
        }
    }

    /// What the two sides know of each other agrees, taking into account what is
    /// still under way.
    pub open spec fn consistent(self) -> bool {
        &&& self.left.wf()
        &&& self.right.wf()
        &&& agree(self.left, self.right, self.to_right, self.to_left)
        &&& agree(self.right, self.left, self.to_left, self.to_right)
    }
}

/// The client port of a request to connect.
pub open spec fn request_of<Content>(msg: MultiplexMsg<Content>) -> Option<u32> {
    match msg {
        MultiplexMsg::Open { client_port, .. } => Some(client_port),
        _ => None,
    }
}

/// The port of a message that is about an open connection.
pub open spec fn about<Content>(msg: MultiplexMsg<Content>) -> Option<u32> {
    match msg {
        MultiplexMsg::Pause { port } => Some(port),
        MultiplexMsg::Resume { port } => Some(port),
        MultiplexMsg::Finish { port } => Some(port),
        MultiplexMsg::FinishAck { port } => Some(port),
        MultiplexMsg::Hangup { port, .. } => Some(port),
        MultiplexMsg::Data { port, .. } => Some(port),
        _ => None,
    }
}

/// Opened for the port `c` is among the first `n` of `messages`.
pub open spec fn opened_among<Content>(messages: Seq<MultiplexMsg<Content>>, n: int, c: u32) -> bool {
    exists|i: int|
        0 <= i < n && (#[trigger] messages[i] matches MultiplexMsg::Opened { client_port, .. }
            && client_port == c)
}

/// Every request under way is one that the client waits for, made once, and not
/// yet known to the server.
pub open spec fn requests_agree<Content>(
    client: Ports,
    server: Ports,
    up: Seq<MultiplexMsg<Content>>,
    down: Seq<MultiplexMsg<Content>>,
) -> bool {
    &&& forall|i: int|
        0 <= i < up.len() ==> (#[trigger] request_of(up[i]) matches Some(c)
            ==> client.requested_by_local(c))
    &&& forall|i: int, j: int|
        0 <= i < j < up.len() && #[trigger] request_of(up[i]) is Some ==> request_of(up[i])
            != #[trigger] request_of(up[j])
    &&& forall|i: int, s: u32|
        0 <= i < up.len() && #[trigger] server.requested_by_remote(s) ==> #[trigger] request_of(
            up[i],
        ) != Some(server.ports[s].peer())
    &&& forall|i: int, j: int|
        0 <= i < up.len() && 0 <= j < down.len() && #[trigger] request_of(up[i]) is Some
            ==> request_of(up[i]) != #[trigger] answer_to(down[j])
}

/// Every request that the server has to answer is one that the client waits for,
/// known to the server once, and not yet answered.
pub open spec fn pending_agree<Content>(
    client: Ports,
    server: Ports,
    down: Seq<MultiplexMsg<Content>>,
) -> bool {
    &&& forall|s: u32| #[trigger]
        server.requested_by_remote(s) ==> client.requested_by_local(server.ports[s].peer())
    &&& forall|s: u32, t: u32| #[trigger]
        server.requested_by_remote(s) && #[trigger] server.requested_by_remote(t) && s != t
            ==> server.ports[s].peer() != server.ports[t].peer()
    &&& forall|s: u32, j: int|
        0 <= j < down.len() && #[trigger] server.requested_by_remote(s) ==> #[trigger] answer_to(
            down[j],
        ) != Some(server.ports[s].peer())
}

/// Every answer under way is one that the client waits for, given once. Where it
/// is that the connection is open, the server has it open.
pub open spec fn answers_agree<Content>(
    client: Ports,
    server: Ports,
    down: Seq<MultiplexMsg<Content>>,
) -> bool {
    &&& forall|j: int|
        0 <= j < down.len() ==> (#[trigger] answer_to(down[j]) matches Some(c)
            ==> client.requested_by_local(c))
    &&& forall|i: int, j: int|
        0 <= i < j < down.len() && #[trigger] answer_to(down[i]) is Some ==> answer_to(down[i])
            != #[trigger] answer_to(down[j])
    &&& forall|j: int|
        0 <= j < down.len() ==> (#[trigger] down[j] matches MultiplexMsg::Opened {
            client_port,
            server_port,
        } ==> server.connected(server_port) && server.ports[server_port].peer() == client_port)
}

/// Every open connection of `server` is open at the other end too, or the news
/// that it is open is under way. The same holds of every port that a message is
/// about, at the time when the message arrives.
pub open spec fn connections_agree<Content>(
    client: Ports,
    server: Ports,
    down: Seq<MultiplexMsg<Content>>,
) -> bool {
    &&& forall|s: u32| #[trigger]
        server.connected(s) ==> {
            let c = server.ports[s].peer();
            ||| client.connected(c) && client.ports[c].peer() == s
            ||| exists|i: int|
                0 <= i < down.len() && #[trigger] down[i] == (MultiplexMsg::<Content>::Opened {
                    client_port: c,
                    server_port: s,
                })
        }
    &&& forall|j: int|
        0 <= j < down.len() ==> (#[trigger] about(down[j]) matches Some(c) ==> client.connected(c)
            || opened_among(down, j, c))
}

/// What `client` knows of its requests and `server` of its connections agrees
/// with the other side and with what is under way.
pub open spec fn agree<Content>(
    client: Ports,
    server: Ports,
    up: Seq<MultiplexMsg<Content>>,
    down: Seq<MultiplexMsg<Content>>,
) -> bool {
    &&& requests_agree(client, server, up, down)
    &&& pending_agree(client, server, down)
    &&& answers_agree(client, server, down)
    &&& connections_agree(client, server, down)
}

/// The two tables have the same ports in the same states.
spec fn same_states(before: Ports, after: Ports) -> bool {
    &&& before.ports.dom() == after.ports.dom()
    &&& forall|p: u32| #[trigger]
        before.ports.contains_key(p) ==> after.ports[p].state == before.ports[p].state
}

/// Neither a change that leaves the states of the ports alone, nor a message
/// about an open connection, brings the two sides apart.
proof fn lemma_about_keeps_agreement<Content>(
    x: Ports,
    x1: Ports,
    y: Ports,
    xy: Seq<MultiplexMsg<Content>>,
    yx: Seq<MultiplexMsg<Content>>,
    out: Seq<MultiplexMsg<Content>>,
)
    requires
        agree(x, y, xy, yx),
        agree(y, x, yx, xy),
        same_states(x, x1),
        out.len() <= 1,
        out.len() == 1 ==> (about(out[0]) matches Some(p) && has_peer(x, p)),
    ensures
        agree(x1, y, xy + out, yx),
        agree(y, x1, yx, xy + out),
{
    let xy1 = xy + out;
    assert forall|p: u32| x1.connected(p) == x.connected(p) && x1.requested_by_local(p)
        == x.requested_by_local(p) && x1.requested_by_remote(p) == x.requested_by_remote(p) by {
        assert(x.ports.contains_key(p) == x1.ports.contains_key(p));
    }
    assert forall|i: int| 0 <= i < xy.len() implies xy1[i] == xy[i] by {}
    assert(requests_agree(x1, y, xy1, yx));
    assert(pending_agree(x1, y, yx));
    assert(answers_agree(x1, y, yx));
    assert(connections_agree(x1, y, yx));
    assert(requests_agree(y, x1, yx, xy1));
    assert(pending_agree(y, x1, xy1));
    assert(answers_agree(y, x1, xy1));
    assert(connections_agree(y, x1, xy1));
}

/// The first of `messages` is not the one that says that `c` is open, so dropping
/// it makes no difference to whether one does.
proof fn lemma_opened_after_drop<Content>(messages: Seq<MultiplexMsg<Content>>, n: int, c: u32)
    requires
        0 < n <= messages.len(),
        opened_among(messages, n, c),
        !(messages[0] matches MultiplexMsg::Opened { client_port, .. } && client_port == c),
    ensures
        opened_among(messages.drop_first(), n - 1, c),
{
    let i = choose|i: int|
        0 <= i < n && (#[trigger] messages[i] matches MultiplexMsg::Opened { client_port, .. }
            && client_port == c);
    assert(messages.drop_first()[i - 1] == messages[i]);
}

/// What holds of the messages under way holds of those that are left when the
/// first has arrived, but for what it says itself.
proof fn lemma_rest_agrees<Content>(
    x: Ports,
    y: Ports,
    xy: Seq<MultiplexMsg<Content>>,
    yx: Seq<MultiplexMsg<Content>>,
)
    requires
        agree(x, y, xy, yx),
        agree(y, x, yx, xy),
        yx.len() > 0,
    ensures
        ({
            let rest = yx.drop_first();
            &&& requests_agree(x, y, xy, rest)
            &&& pending_agree(x, y, rest)
            &&& answers_agree(x, y, rest)
            &&& requests_agree(y, x, rest, xy)
            &&& pending_agree(y, x, xy)
            &&& answers_agree(y, x, xy)
            &&& connections_agree(y, x, xy)
            &&& !(yx[0] is Opened) ==> connections_agree(x, y, rest)
        }),
{
    let rest = yx.drop_first();
    assert forall|i: int| 0 <= i < rest.len() implies rest[i] == yx[i + 1] by {}
    if !(yx[0] is Opened) {
        assert forall|s: u32| #[trigger] y.connected(s) implies ({
            let c = y.ports[s].peer();
            ||| x.connected(c) && x.ports[c].peer() == s
            ||| exists|i: int|
                0 <= i < rest.len() && #[trigger] rest[i] == (MultiplexMsg::<Content>::Opened {
                    client_port: c,
                    server_port: s,
                })
        }) by {
            let c = y.ports[s].peer();
            let news = MultiplexMsg::<Content>::Opened { client_port: c, server_port: s };
            if !(x.connected(c) && x.ports[c].peer() == s) {
                let i = choose|i: int| 0 <= i < yx.len() && #[trigger] yx[i] == news;
                assert(rest[i - 1] == news);
            }
        }
        assert forall|j: int| 0 <= j < rest.len() implies (#[trigger] about(rest[j]) matches Some(c)
            ==> x.connected(c) || opened_among(rest, j, c)) by {
            if let Some(c) = about(rest[j]) {
                assert(about(yx[j + 1]) == Some(c));
                if !x.connected(c) {
                    lemma_opened_after_drop(yx, j + 1, c);
                }
            }
        }
    }
}

/// Asking for a service keeps the two sides in agreement.
proof fn lemma_connect_keeps_agreement<Content>(
    x: Ports,
    y: Ports,
    xy: Seq<MultiplexMsg<Content>>,
    yx: Seq<MultiplexMsg<Content>>,
    service: u32,
    c: u32,
)
    requires
        agree(x, y, xy, yx),
        agree(y, x, yx, xy),
        !x.ports.contains_key(c),
    ensures
        ({
            let x1 = x.created(c, PortState::LocalRequestingRemoteService);
            let xy1 = xy + seq![MultiplexMsg::Open { service, client_port: c }];
            agree(x1, y, xy1, yx) && agree(y, x1, yx, xy1)
        }),
{
    let x1 = x.created(c, PortState::LocalRequestingRemoteService);
    let xy1 = xy + seq![MultiplexMsg::<Content>::Open { service, client_port: c }];
    assert forall|p: u32| x1.connected(p) == x.connected(p) && x1.requested_by_local(p) == (p == c
        || x.requested_by_local(p)) && x1.requested_by_remote(p) == x.requested_by_remote(p) by {}
    assert forall|i: int| 0 <= i < xy.len() implies xy1[i] == xy[i] by {}
    assert(!x.requested_by_local(c));
    assert(requests_agree(x1, y, xy1, yx));
    assert(pending_agree(x1, y, yx));
    assert(answers_agree(x1, y, yx));
    assert(connections_agree(x1, y, yx));
    assert(requests_agree(y, x1, yx, xy1));
    assert(pending_agree(y, x1, xy1));
    assert(answers_agree(y, x1, xy1));
    assert(connections_agree(y, x1, xy1));
}

/// Accepting a connection keeps the two sides in agreement.
proof fn lemma_accept_keeps_agreement<Content>(
    x: Ports,
    y: Ports,
    xy: Seq<MultiplexMsg<Content>>,
    yx: Seq<MultiplexMsg<Content>>,
    s: u32,
)
    requires
        x.wf(),
        agree(x, y, xy, yx),
        agree(y, x, yx, xy),
        x.requested_by_remote(s),
    ensures
        ({
            let c = x.ports[s].peer();
            let x1 = x.put(
                PortData { state: PortState::Connected { remote_port: c }, ..x.ports[s] },
            );
            let xy1 = xy + seq![MultiplexMsg::Opened { client_port: c, server_port: s }];
            agree(x1, y, xy1, yx) && agree(y, x1, yx, xy1)
        }),
{
    let c = x.ports[s].peer();
    let x1 = x.put(PortData { state: PortState::Connected { remote_port: c }, ..x.ports[s] });
    let news = MultiplexMsg::<Content>::Opened { client_port: c, server_port: s };
    let xy1 = xy + seq![news];
    assert forall|p: u32| x1.connected(p) == (p == s || x.connected(p)) && x1.requested_by_local(p)
        == x.requested_by_local(p) && x1.requested_by_remote(p) == (p != s
        && x.requested_by_remote(p)) by {}
    assert forall|i: int| 0 <= i < xy.len() implies xy1[i] == xy[i] by {}
    assert(xy1[xy.len() as int] == news);
    assert(requests_agree(x1, y, xy1, yx));
    assert(pending_agree(x1, y, yx));
    assert(answers_agree(x1, y, yx));
    assert(connections_agree(x1, y, yx));
    assert(requests_agree(y, x1, yx, xy1));
    assert(pending_agree(y, x1, xy1));
    assert(answers_agree(y, x1, xy1));
    assert(connections_agree(y, x1, xy1));
}

/// Rejecting a connection keeps the two sides in agreement.
proof fn lemma_reject_keeps_agreement<Content>(
    x: Ports,
    y: Ports,
    xy: Seq<MultiplexMsg<Content>>,
    yx: Seq<MultiplexMsg<Content>>,
    s: u32,
    reason: Option<Content>,
)
    requires
        agree(x, y, xy, yx),
        agree(y, x, yx, xy),
        x.requested_by_remote(s),
    ensures
        ({
            let x1 = x.released(s);
            let xy1 = xy + seq![
                MultiplexMsg::Refused { client_port: x.ports[s].peer(), reason },
            ];
            agree(x1, y, xy1, yx) && agree(y, x1, yx, xy1)
        }),
{
    let c = x.ports[s].peer();
    let x1 = x.released(s);
    let xy1 = xy + seq![MultiplexMsg::<Content>::Refused { client_port: c, reason }];
    assert forall|p: u32| x1.connected(p) == x.connected(p) && x1.requested_by_local(p)
        == x.requested_by_local(p) && x1.requested_by_remote(p) == (p != s
        && x.requested_by_remote(p)) by {}
    assert forall|i: int| 0 <= i < xy.len() implies xy1[i] == xy[i] by {}
    assert(requests_agree(x1, y, xy1, yx));
    assert(pending_agree(x1, y, yx));
    assert(answers_agree(x1, y, yx));
    assert(connections_agree(x1, y, yx));
    assert(requests_agree(y, x1, yx, xy1));
    assert(pending_agree(y, x1, xy1));
    assert(answers_agree(y, x1, xy1));
    assert(connections_agree(y, x1, xy1));
}

/// The arrival of a request keeps the two sides in agreement.
proof fn lemma_request_keeps_agreement<Content>(
    x: Ports,
    y: Ports,
    xy: Seq<MultiplexMsg<Content>>,
    yx: Seq<MultiplexMsg<Content>>,
    s: u32,
)
    requires
        agree(x, y, xy, yx),
        agree(y, x, yx, xy),
        yx.len() > 0,
        yx[0] is Open,
        !x.ports.contains_key(s),
    ensures
        ({
            let c = request_of(yx[0])->0;
            let x1 = x.created(s, PortState::RemoteRequestingLocalService { remote_port: c });
            agree(x1, y, xy, yx.drop_first()) && agree(y, x1, yx.drop_first(), xy)
        }),
{
    lemma_rest_agrees(x, y, xy, yx);
    let rest = yx.drop_first();
    let c = request_of(yx[0])->0;
    let x1 = x.created(s, PortState::RemoteRequestingLocalService { remote_port: c });
    assert forall|p: u32| x1.connected(p) == x.connected(p) && x1.requested_by_local(p)
        == x.requested_by_local(p) && x1.requested_by_remote(p) == (p == s
        || x.requested_by_remote(p)) by {}
    assert forall|i: int| 0 <= i < rest.len() implies rest[i] == yx[i + 1] by {}
    assert(request_of(yx[0]) == Some(c));
    assert(requests_agree(x1, y, xy, rest));
    assert(pending_agree(x1, y, rest));
    assert(answers_agree(x1, y, rest));
    assert(connections_agree(x1, y, rest));
    assert(requests_agree(y, x1, rest, xy));
    assert(pending_agree(y, x1, xy));
    assert(answers_agree(y, x1, xy));
    assert(connections_agree(y, x1, xy));
}

/// The arrival of the news that a connection is open keeps the two sides in
/// agreement.
proof fn lemma_opened_keeps_agreement<Content>(
    x: Ports,
    y: Ports,
    xy: Seq<MultiplexMsg<Content>>,
    yx: Seq<MultiplexMsg<Content>>,
    c: u32,
    s: u32,
)
    requires
        x.wf(),
        agree(x, y, xy, yx),
        agree(y, x, yx, xy),
        yx.len() > 0,
        yx[0] == (MultiplexMsg::<Content>::Opened { client_port: c, server_port: s }),
    ensures
        x.requested_by_local(c),
        ({
            let x1 = x.put(
                PortData { state: PortState::Connected { remote_port: s }, ..x.ports[c] },
            );
            agree(x1, y, xy, yx.drop_first()) && agree(y, x1, yx.drop_first(), xy)
        }),
{
    lemma_rest_agrees(x, y, xy, yx);
    let rest = yx.drop_first();
    assert(answer_to(yx[0]) == Some(c));
    let x1 = x.put(PortData { state: PortState::Connected { remote_port: s }, ..x.ports[c] });
    assert forall|p: u32| x1.connected(p) == (p == c || x.connected(p)) && x1.requested_by_local(p)
        == (p != c && x.requested_by_local(p)) && x1.requested_by_remote(p)
        == x.requested_by_remote(p) by {}
    assert forall|i: int| 0 <= i < rest.len() implies rest[i] == yx[i + 1] by {}
    assert(requests_agree(x1, y, xy, rest));
    assert(pending_agree(x1, y, rest));
    assert(answers_agree(x1, y, rest));
    assert(connections_agree(x1, y, rest)) by {
        assert forall|t: u32| #[trigger] y.connected(t) implies ({
            let p = y.ports[t].peer();
            ||| x1.connected(p) && x1.ports[p].peer() == t
            ||| exists|i: int|
                0 <= i < rest.len() && #[trigger] rest[i] == (MultiplexMsg::<Content>::Opened {
                    client_port: p,
                    server_port: t,
                })
        }) by {
            let p = y.ports[t].peer();
            let news = MultiplexMsg::<Content>::Opened { client_port: p, server_port: t };
            if !(x1.connected(p) && x1.ports[p].peer() == t) {
                assert(!(x.connected(p) && x.ports[p].peer() == t));
                let i = choose|i: int| 0 <= i < yx.len() && #[trigger] yx[i] == news;
                assert(i != 0);
                assert(rest[i - 1] == news);
            }
        }
        assert forall|j: int| 0 <= j < rest.len() implies (#[trigger] about(rest[j]) matches Some(p)
            ==> x1.connected(p) || opened_among(rest, j, p)) by {
            if let Some(p) = about(rest[j]) {
                assert(about(yx[j + 1]) == Some(p));
                if !x1.connected(p) {
                    lemma_opened_after_drop(yx, j + 1, p);
                }
            }
        }
    }
    assert(requests_agree(y, x1, rest, xy));
    assert(pending_agree(y, x1, xy));
    assert(answers_agree(y, x1, xy));
    assert(connections_agree(y, x1, xy));
}

/// The arrival of the news that a connection is refused keeps the two sides in
/// agreement.
proof fn lemma_refused_keeps_agreement<Content>(
    x: Ports,
    y: Ports,
    xy: Seq<MultiplexMsg<Content>>,
    yx: Seq<MultiplexMsg<Content>>,
    c: u32,
)
    requires
        agree(x, y, xy, yx),
        agree(y, x, yx, xy),
        yx.len() > 0,
        yx[0] is Refused,
        answer_to(yx[0]) == Some(c),
    ensures
        x.requested_by_local(c),
        agree(x.released(c), y, xy, yx.drop_first()),
        agree(y, x.released(c), yx.drop_first(), xy),
{
    lemma_rest_agrees(x, y, xy, yx);
    let rest = yx.drop_first();
    let x1 = x.released(c);
    assert forall|p: u32| x1.connected(p) == x.connected(p) && x1.requested_by_local(p) == (p != c
        && x.requested_by_local(p)) && x1.requested_by_remote(p) == x.requested_by_remote(p) by {}
    assert forall|i: int| 0 <= i < rest.len() implies rest[i] == yx[i + 1] by {}
    assert(requests_agree(x1, y, xy, rest));
    assert(pending_agree(x1, y, rest));
    assert(answers_agree(x1, y, rest));
    assert(connections_agree(x1, y, rest));
    assert(requests_agree(y, x1, rest, xy));
    assert(pending_agree(y, x1, xy));
    assert(answers_agree(y, x1, xy));
    assert(connections_agree(y, x1, xy));
}

/// What a few actions put on the link.
proof fn lemma_sent_by_few<Content>(actions: Seq<Action<Content>>, flow: bool)
    requires
        actions.len() <= 2,
    ensures
        sent_by(actions, flow) == (if actions.len() == 0 {
            Seq::empty()
        } else if actions.len() == 1 {
            sent_by(seq![actions[0]], flow)
        } else {
            sent_by(seq![actions[0]], flow) + sent_by(seq![actions[1]], flow)
        }),
        forall|action: Action<Content>| #[trigger]
            sent_by(seq![action], flow) == (match action {
                Action::Send(msg) => seq![msg],
                Action::Enqueue { pause, .. } => at_most_one(if_asked(flow, pause)),
                Action::ResumeIfDrained { resume, .. } => at_most_one(if_asked(flow, resume)),
                _ => Seq::empty(),
            }),
{
    reveal_with_fuel(sent_by, 3);
    assert forall|action: Action<Content>| #[trigger]
        sent_by(seq![action], flow) == (match action {
            Action::Send(msg) => seq![msg],
            Action::Enqueue { pause, .. } => at_most_one(if_asked(flow, pause)),
            Action::ResumeIfDrained { resume, .. } => at_most_one(if_asked(flow, resume)),
            _ => Seq::empty(),
        }) by {
        assert(seq![action].drop_first() =~= Seq::<Action<Content>>::empty());
        assert(sent_by(seq![action], flow) =~= (match action {
            Action::Send(msg) => seq![msg],
            Action::Enqueue { pause, .. } => at_most_one(if_asked(flow, pause)),
            Action::ResumeIfDrained { resume, .. } => at_most_one(if_asked(flow, resume)),
            _ => Seq::empty(),
        }));
    }
    if actions.len() == 1 {
        assert(actions =~= seq![actions[0]]);
    }
    if actions.len() == 2 {
        assert(actions.drop_first() =~= seq![actions[1]]);
        assert(sent_by(actions, flow) =~= sent_by(seq![actions[0]], flow) + sent_by(
            seq![actions[1]],
            flow,
        ));
    }
}

/// A turn of the left multiplexer keeps the two sides in agreement, and what the
/// right one sent never stops it.
proof fn lemma_left_turn<Content>(before: Conversation<Content>, turn: Turn<Content>)
    requires
        before.consistent(),
        before.left_possible(turn),
    ensures
        match before.left_after(turn) {
            Ok(after) => after.consistent(),
            Err(fault) => fault is PortsExhausted,
        },
{
    let (x, y, xy, yx) = (before.left, before.right, before.to_right, before.to_left);
    let event = before.event(turn.cause);
    let rest = yx.drop_first();
    if turn.cause is Arrival {
        assert(event == LoopEvent::<Content, ()>::ReceiveMsg(Ok(yx[0])));
        match yx[0] {
            MultiplexMsg::Open { .. } => {
                if !(before.left_after(turn) is Err) {
                    lemma_request_keeps_agreement(x, y, xy, yx, turn.fresh);
                }
            },
            MultiplexMsg::Opened { client_port, server_port } => {
                lemma_opened_keeps_agreement(x, y, xy, yx, client_port, server_port);
            },
            MultiplexMsg::Refused { client_port, .. } => {
                lemma_refused_keeps_agreement(x, y, xy, yx, client_port);
            },
            _ => {
                let p = about(yx[0])->0;
                assert(about(yx[0]) == Some(p));
                assert(x.connected(p));
                lemma_rest_agrees(x, y, xy, yx);
            },
        }
    }
    if let Ok((x1, actions)) = before.left_reaction(turn) {
        assert(x1.wf()) by {
            assert(x1.used =~= x1.ports.dom());
        }
        lemma_sent_by_few(actions, turn.flow);
        let out = sent_by(actions, turn.flow);
        match turn.cause {
            Cause::Connect { service } => {
                assert(out =~= seq![MultiplexMsg::Open { service, client_port: turn.fresh }]);
                lemma_connect_keeps_agreement(x, y, xy, yx, service, turn.fresh);
            },
            Cause::Said(ChannelMsg::Accepted { local_port }) => {
                lemma_accept_keeps_agreement(x, y, xy, yx, local_port);
            },
            Cause::Said(ChannelMsg::Rejected { local_port, reason }) => {
                assert(out =~= seq![
                    MultiplexMsg::Refused { client_port: x.ports[local_port].peer(), reason },
                ]);
                lemma_reject_keeps_agreement(x, y, xy, yx, local_port, reason);
            },
            Cause::Said(msg) => {
                assert(x1.ports.dom() =~= x.ports.dom());
                assert(same_states(x, x1));
                assert(out.len() <= 1);
                lemma_about_keeps_agreement(x, x1, y, xy, yx, out);
            },
            Cause::Arrival => {
                if about(yx[0]) is Some {
                    assert(x1.ports.dom() =~= x.ports.dom());
                    assert(same_states(x, x1));
                    assert(out.len() <= 1);
                    lemma_about_keeps_agreement(x, x1, y, xy, rest, out);
                } else {
                    assert(out =~= Seq::<MultiplexMsg<Content>>::empty());
                    assert(xy + out =~= xy);
                }
            },
        }
    }
}

/// Two multiplexers that talk to each other never break the protocol: whatever
/// their channels and services do, and however long messages are under way, what
/// one of them sends never stops the other. At every moment what they know of
/// each other agrees.
pub proof fn law_no_protocol_errors<Content>(left: Cfg, right: Cfg, turns: Seq<Turn<Content>>)
    requires
        left.valid() && right.valid(),
        Conversation::start(left, right).all_possible(turns),
    ensures
        match Conversation::start(left, right).after_all(turns) {
            Ok(after) => after.consistent(),
            Err(fault) => fault is PortsExhausted,
        },
    decreases turns.len(),
{
    let start = Conversation::<Content>::start(left, right);
    if turns.len() == 0 {
        assert(start.left.used =~= start.left.ports.dom());
        assert(start.right.used =~= start.right.ports.dom());
    } else {
        law_no_protocol_errors(left, right, turns.drop_last());
        if let Ok(before) = start.after_all(turns.drop_last()) {
            let turn = turns.last();
            lemma_left_turn(before.seen_from(turn.on_left), turn);
        }
    }
}

/// At every moment, a connection that is open on one side is open at the other
/// end too, with the ports matched, or the news that it is open is under way.
pub proof fn law_connections_are_paired<Content>(
    left: Cfg,
    right: Cfg,
    turns: Seq<Turn<Content>>,
    on_left: bool,
    a: u32,
)
    requires
        left.valid() && right.valid(),
        Conversation::start(left, right).all_possible(turns),
    ensures
        Conversation::<Content>::start(left, right).after_all(turns) matches Ok(after) ==> {
            let view = after.seen_from(on_left);
            view.left.connected(a) ==> {
                let b = view.left.ports[a].peer();
                ||| paired(view.left, a, view.right, b)
                ||| view.to_right.contains(
                    MultiplexMsg::Opened { client_port: b, server_port: a },
                )
            }
        },
{
    law_no_protocol_errors(left, right, turns);
}

/// Finish for `port`.
spec fn finish<Content>(port: u32) -> MultiplexMsg<Content> {
    MultiplexMsg::Finish { port }
}

/// What is known, at every moment, of the data from the left side for port `b` of
/// the right side: `sent` is what has been sent, `got` what has been put into the
/// receive buffer.
spec fn delivery<Content>(
    view: Conversation<Content>,
    b: u32,
    sent: Seq<Content>,
    got: Seq<Content>,
    hung_up: bool,
) -> bool {
    &&& sent.len() > 0 ==> has_peer(view.left, b)
    &&& got.len() > 0 ==> view.right.connected(b)
    &&& got.is_prefix_of(sent)
    &&& view.right.ports.contains_key(b) && view.right.ports[b].rx_buffer ==> sent == got
        + data_for(view.to_right, b)
    &&& view.right.ports.contains_key(b) && !view.right.ports[b].rx_buffer && !hung_up ==> got
        == sent && view.right.ports[b].rx_finished
    &&& !has_peer(view.left, b) || sends_to(view.left, b) ==> {
        &&& forall|i: int|
            0 <= i < view.to_right.len() ==> #[trigger] view.to_right[i] != finish::<Content>(b)
        &&& view.right.ports.contains_key(b) ==> !view.right.ports[b].rx_finished
    }
    &&& forall|i: int, j: int|
        0 <= i < j < view.to_right.len() && #[trigger] view.to_right[i] == finish::<Content>(b)
            ==> !(#[trigger] view.to_right[j] is Data && about(view.to_right[j]) == Some(b))
}

/// The data among messages that follow each other.
proof fn lemma_data_for_append<Content>(
    first: Seq<MultiplexMsg<Content>>,
    second: Seq<MultiplexMsg<Content>>,
    b: u32,
)
    ensures
        data_for(first + second, b) == data_for(first, b) + data_for(second, b),
    decreases first.len(),
{
    if first.len() == 0 {
        assert(first + second =~= second);
        assert(data_for(first + second, b) =~= data_for(first, b) + data_for(second, b));
    } else {
        assert((first + second).drop_first() =~= first.drop_first() + second);
        lemma_data_for_append(first.drop_first(), second, b);
        assert(data_for(first + second, b) =~= data_for(first, b) + data_for(second, b));
    }
}

/// Where no message brings data for the port, there is none.
proof fn lemma_no_data_for<Content>(messages: Seq<MultiplexMsg<Content>>, b: u32)
    requires
        forall|i: int|
            0 <= i < messages.len() ==> !(#[trigger] messages[i] is Data && about(messages[i])
                == Some(b)),
    ensures
        data_for(messages, b) == Seq::<Content>::empty(),
    decreases messages.len(),
{
    if messages.len() > 0 {
        let rest = messages.drop_first();
        assert forall|i: int| 0 <= i < rest.len() implies !(#[trigger] rest[i] is Data && about(
            rest[i],
        ) == Some(b)) by {
            assert(rest[i] == messages[i + 1]);
        }
        lemma_no_data_for(rest, b);
        assert(!(messages[0] is Data && about(messages[0]) == Some(b)));
    }
}

/// At most one channel is connected to a port of the other side.
proof fn lemma_peer_is_unique<Content>(view: Conversation<Content>, a: u32, a1: u32)
    requires
        view.consistent(),
        view.left.connected(a),
        view.left.connected(a1),
        view.left.ports[a].peer() == view.left.ports[a1].peer(),
    ensures
        a == a1,
        view.right.ports.contains_key(view.left.ports[a].peer()),
{
    let b = view.left.ports[a].peer();
    let down = view.to_right;
    let news = MultiplexMsg::<Content>::Opened { client_port: b, server_port: a };
    let news1 = MultiplexMsg::<Content>::Opened { client_port: b, server_port: a1 };
    assert(connections_agree(view.right, view.left, down));
    if !(view.right.connected(b) && view.right.ports[b].peer() == a) {
        let i = choose|i: int| 0 <= i < down.len() && #[trigger] down[i] == news;
        assert(answer_to(down[i]) == Some(b));
        assert(view.right.requested_by_local(b));
        let j = choose|j: int| 0 <= j < down.len() && #[trigger] down[j] == news1;
        assert(answer_to(down[j]) == Some(b));
    } else if !(view.right.connected(b) && view.right.ports[b].peer() == a1) {
        let j = choose|j: int| 0 <= j < down.len() && #[trigger] down[j] == news1;
        assert(answer_to(down[j]) == Some(b));
    }
}

/// A turn of the sending side keeps account of the data.
proof fn lemma_sender_turn<Content>(
    view: Conversation<Content>,
    turn: Turn<Content>,
    b: u32,
    sent: Seq<Content>,
    got: Seq<Content>,
    hung_up: bool,
)
    requires
        view.consistent(),
        view.left_possible(turn),
        delivery(view, b, sent, got, hung_up),
    ensures
        view.left_after(turn) matches Ok(after) ==> delivery(
            after,
            b,
            sent + sent_in(turn, b),
            got,
            hung_up,
        ),
{
    if let Ok(after) = view.left_after(turn) {
        let (x, x1) = (view.left, after.left);
        let actions = view.left_reaction(turn)->Ok_0.1;
        let out = sent_by(actions, turn.flow);
        let sent1 = sent + sent_in(turn, b);
        lemma_left_turn(view, turn);
        lemma_sent_by_few(actions, turn.flow);
        lemma_data_for_append(view.to_right, out, b);
        assert(out.len() <= 1);
        assert(data_for(out, b) =~= sent_in(turn, b)) by {
            reveal_with_fuel(data_for, 2);
            if out.len() == 1 {
                assert(out.drop_first() =~= Seq::<MultiplexMsg<Content>>::empty());
            }
        }
        assert forall|p: u32| #[trigger] x.connected(p) implies x1.connected(p)
            && x1.ports[p].peer() == x.ports[p].peer() && (x.ports[p].tx_finished
            ==> x1.ports[p].tx_finished) by {}
        assert(has_peer(x, b) ==> has_peer(x1, b));
        assert(sent1.len() > 0 ==> has_peer(x1, b));
        assert(got.is_prefix_of(sent1));
        assert(view.right.ports.contains_key(b) && view.right.ports[b].rx_buffer ==> sent1 =~= got
            + data_for(after.to_right, b));
        if !has_peer(x1, b) || sends_to(x1, b) {
            if has_peer(x, b) {
                let a = choose|a: u32| #[trigger] x.connected(a) && x.ports[a].peer() == b;
                let a1 = choose|a1: u32| #[trigger]
                    x1.connected(a1) && x1.ports[a1].peer() == b && !x1.ports[a1].tx_finished;
                lemma_peer_is_unique(after, a, a1);
                if let Cause::Said(ChannelMsg::SenderDropped { local_port }) = turn.cause {
                    if x.ports[local_port].peer() == b {
                        lemma_peer_is_unique(view, a, local_port);
                    }
                }
            }
            assert(!has_peer(x, b) || sends_to(x, b));
            assert(out.len() == 1 ==> out[0] != finish::<Content>(b));
        }
    }
}

/// What a few actions put into the receive buffer of a port.
proof fn lemma_enqueued_by_few<Content>(actions: Seq<Action<Content>>, b: u32)
    requires
        actions.len() <= 2,
        forall|i: int|
            0 <= i < actions.len() && #[trigger] actions[i] is Enqueue ==> actions.len() == 1,
    ensures
        enqueued_by(actions, b) == (if actions.len() == 1 {
            match actions[0] {
                Action::Enqueue { local_port, content, .. } if local_port == b => seq![content],
                _ => Seq::empty(),
            }
        } else {
            Seq::empty()
        }),
{
    reveal_with_fuel(enqueued_by, 3);
    if actions.len() == 1 {
        assert(actions.drop_first() =~= Seq::<Action<Content>>::empty());
        assert(enqueued_by(actions, b) =~= (match actions[0] {
            Action::Enqueue { local_port, content, .. } if local_port == b => seq![content],
            _ => Seq::empty(),
        }));
    }
    if actions.len() == 2 {
        assert(!(actions[0] is Enqueue) && !(actions[1] is Enqueue));
        assert(actions.drop_first() =~= seq![actions[1]]);
        assert(actions.drop_first().drop_first() =~= Seq::<Action<Content>>::empty());
    }
}

/// Nothing has been sent to a port that the other side does not have.
proof fn lemma_nothing_for_unknown_port<Content>(view: Conversation<Content>, b: u32)
    requires
        view.consistent(),
        !view.right.ports.contains_key(b),
    ensures
        !has_peer(view.left, b),
        data_for(view.to_right, b) == Seq::<Content>::empty(),
{
    let down = view.to_right;
    if has_peer(view.left, b) {
        let a = choose|a: u32| #[trigger] view.left.connected(a) && view.left.ports[a].peer() == b;
        lemma_peer_is_unique(view, a, a);
    }
    assert forall|i: int| 0 <= i < down.len() implies !(#[trigger] down[i] is Data && about(down[i])
        == Some(b)) by {
        if about(down[i]) == Some(b) {
            assert(opened_among(down, i, b));
            let j = choose|j: int|
                0 <= j < i && (#[trigger] down[j] matches MultiplexMsg::Opened { client_port, .. }
                    && client_port == b);
            assert(answer_to(down[j]) == Some(b));
        }
    }
    lemma_no_data_for(down, b);
}

/// A turn of the receiving side keeps account of the data.
proof fn lemma_receiver_turn<Content>(
    view: Conversation<Content>,
    turn: Turn<Content>,
    b: u32,
    sent: Seq<Content>,
    got: Seq<Content>,
    hung_up: bool,
)
    requires
        view.consistent(),
        view.mirrored().left_possible(turn),
        delivery(view, b, sent, got, hung_up),
    ensures
        view.mirrored().left_after(turn) matches Ok(after) ==> delivery(
            after.mirrored(),
            b,
            sent,
            got + view.mirrored().left_received(turn, b),
            hung_up || hangs_up(turn, b),
        ),
{
    if let Ok(after) = view.mirrored().left_after(turn) {
        let (y, y1) = (view.right, after.left);
        let actions = view.mirrored().left_reaction(turn)->Ok_0.1;
        let (down, down1) = (view.to_right, after.to_left);
        let more = view.mirrored().left_received(turn, b);
        lemma_enqueued_by_few(actions, b);
        assert(turn.cause is Arrival ==> forall|i: int|
            0 <= i < down1.len() ==> #[trigger] down1[i] == down[i + 1]);
        assert forall|p: u32| #[trigger] y.connected(p) implies y1.connected(p) by {}
        if !y.ports.contains_key(b) {
            lemma_nothing_for_unknown_port(view, b);
            lemma_left_turn(view.mirrored(), turn);
        }
        assert(got + more =~= got || more.len() == 1);
        if turn.cause is Arrival {
            match down[0] {
                MultiplexMsg::Data { port, content } if port == b => {
                    assert(data_for(down, b) =~= seq![content] + data_for(down1, b));
                    if y.ports[b].rx_buffer {
                        assert(sent =~= (got + more) + data_for(down1, b));
                    }
                },
                MultiplexMsg::Finish { port } if port == b => {
                    assert forall|i: int| 0 <= i < down.len() implies !(#[trigger] down[i] is Data
                        && about(down[i]) == Some(b)) by {
                        assert(down[0] == finish::<Content>(b));
                    }
                    lemma_no_data_for(down, b);
                    if y.ports[b].rx_buffer {
                        assert(sent =~= got);
                    }
                },
                _ => {},
            }
        }
        assert(y1.ports.contains_key(b) && y1.ports[b].rx_buffer ==> sent =~= got + more + data_for(
            down1,
            b,
        ));
    }
}

/// At every moment the account of the data for a port is right.
proof fn lemma_delivery<Content>(
    left: Cfg,
    right: Cfg,
    turns: Seq<Turn<Content>>,
    from_left: bool,
    b: u32,
)
    requires
        left.valid() && right.valid(),
        Conversation::start(left, right).all_possible(turns),
    ensures
        Conversation::start(left, right).after_all(turns) matches Ok(after) ==> delivery(
            after.seen_from(from_left),
            b,
            sent_to(turns, from_left, b),
            Conversation::start(left, right).received_at(turns, !from_left, b),
            hung_up(turns, !from_left, b),
        ),
    decreases turns.len(),
{
    let start = Conversation::<Content>::start(left, right);
    if turns.len() > 0 {
        let (earlier, turn) = (turns.drop_last(), turns.last());
        lemma_delivery(left, right, earlier, from_left, b);
        law_no_protocol_errors(left, right, earlier);
        if let Ok(before) = start.after_all(earlier) {
            let view = before.seen_from(from_left);
            let sent = sent_to(earlier, from_left, b);
            let got = start.received_at(earlier, !from_left, b);
            let hung = hung_up(earlier, !from_left, b);
            if turn.on_left == from_left {
                lemma_sender_turn(view, turn, b, sent, got, hung);
            } else {
                assert(view.mirrored() == before.seen_from(turn.on_left));
                lemma_receiver_turn(view, turn, b, sent, got, hung);
            }
        }
    } else {
        let view = start.seen_from(from_left);
        assert(!has_peer(view.left, b));
    }
}

/// Whatever else goes on between the two sides, what is put into the receive
/// buffer of a port is what was sent to that port, in the same order, with nothing
/// left out and nothing added. As long as the port receives, what is still missing
/// is under way.
pub proof fn law_data_arrives_in_order<Content>(
    left: Cfg,
    right: Cfg,
    turns: Seq<Turn<Content>>,
    from_left: bool,
    b: u32,
)
    requires
        left.valid() && right.valid(),
        Conversation::start(left, right).all_possible(turns),
    ensures
        Conversation::<Content>::start(left, right).after_all(turns) matches Ok(after) ==> {
            let view = after.seen_from(from_left);
            let sent = sent_to(turns, from_left, b);
            let got = Conversation::start(left, right).received_at(turns, !from_left, b);
            &&& got.is_prefix_of(sent)
            &&& view.right.ports.contains_key(b) && view.right.ports[b].rx_buffer ==> sent == got
                + data_for(view.to_right, b)
        },
{
    lemma_delivery(left, right, turns, from_left, b);
}

/// Nothing is lost at the end of a channel: once a receive buffer has been
/// finished, everything that was sent has been put into it, unless the receiver
/// was dropped before.
pub proof fn law_nothing_lost_at_the_end<Content>(
    left: Cfg,
    right: Cfg,
    turns: Seq<Turn<Content>>,
    from_left: bool,
    b: u32,
)
    requires
        left.valid() && right.valid(),
        Conversation::start(left, right).all_possible(turns),
        !hung_up(turns, !from_left, b),
    ensures
        Conversation::<Content>::start(left, right).after_all(turns) matches Ok(after) ==> {
            let view = after.seen_from(from_left);
            view.right.ports.contains_key(b) && !view.right.ports[b].rx_buffer ==> {
                &&& view.right.ports[b].rx_finished
                &&& Conversation::start(left, right).received_at(turns, !from_left, b) == sent_to(
                    turns,
                    from_left,
                    b,
                )
            }
        },
{
    lemma_delivery(left, right, turns, from_left, b);
}

/// Finish for `b` is only ever sent by a sender that is gone, and no other takes its
/// place.
spec fn finish_is_final<Content>(
    view: Conversation<Content>,
    b: u32,
    messages: Seq<MultiplexMsg<Content>>,
) -> bool {
    &&& forall|i: int|
        0 <= i < messages.len() && #[trigger] messages[i] == finish::<Content>(b) ==> has_peer(
            view.left,
            b,
        ) && !sends_to(view.left, b)
    &&& forall|i: int, j: int|
        0 <= i < j < messages.len() && #[trigger] messages[i] == finish::<Content>(b) ==> !(
        #[trigger] messages[j] is Data && about(messages[j]) == Some(b))
}

/// A turn of the sending side keeps Finish final.
proof fn lemma_finish_stays_final<Content>(
    view: Conversation<Content>,
    turn: Turn<Content>,
    b: u32,
    messages: Seq<MultiplexMsg<Content>>,
)
    requires
        view.consistent(),
        view.left_possible(turn),
        finish_is_final(view, b, messages),
    ensures
        view.left_after(turn) matches Ok(after) ==> finish_is_final(
            after,
            b,
            messages + view.left_sent(turn),
        ),
{
    if let Ok(after) = view.left_after(turn) {
        let (x, x1) = (view.left, after.left);
        let actions = view.left_reaction(turn)->Ok_0.1;
        let out = view.left_sent(turn);
        let messages1 = messages + out;
        lemma_left_turn(view, turn);
        lemma_sent_by_few(actions, turn.flow);
        assert(out.len() <= 1);
        assert forall|p: u32| #[trigger] x.connected(p) implies x1.connected(p)
            && x1.ports[p].peer() == x.ports[p].peer() && (x.ports[p].tx_finished
            ==> x1.ports[p].tx_finished) by {}
        assert forall|i: int| 0 <= i < messages1.len() && #[trigger] messages1[i] == finish::<
            Content,
        >(b) implies has_peer(x1, b) && !sends_to(x1, b) by {
            let a = if i < messages.len() {
                assert(messages[i] == finish::<Content>(b));
                choose|a: u32| #[trigger] x.connected(a) && x.ports[a].peer() == b
            } else {
                assert(out[0] == finish::<Content>(b));
                match turn.cause {
                    Cause::Said(ChannelMsg::SenderDropped { local_port }) => local_port,
                    _ => arbitrary(),
                }
            };
            assert(x.connected(a) && x.ports[a].peer() == b && x1.ports[a].tx_finished);
            if sends_to(x1, b) {
                let a1 = choose|a1: u32| #[trigger]
                    x1.connected(a1) && x1.ports[a1].peer() == b && !x1.ports[a1].tx_finished;
                lemma_peer_is_unique(after, a, a1);
            }
        }
    }
}

/// At every moment Finish is final.
proof fn lemma_finish_is_final<Content>(
    left: Cfg,
    right: Cfg,
    turns: Seq<Turn<Content>>,
    from_left: bool,
    b: u32,
)
    requires
        left.valid() && right.valid(),
        Conversation::start(left, right).all_possible(turns),
    ensures
        Conversation::start(left, right).after_all(turns) matches Ok(after) ==> finish_is_final(
            after.seen_from(from_left),
            b,
            Conversation::start(left, right).put_on_link(turns, from_left),
        ),
    decreases turns.len(),
{
    let start = Conversation::<Content>::start(left, right);
    if turns.len() > 0 {
        let (earlier, turn) = (turns.drop_last(), turns.last());
        lemma_finish_is_final(left, right, earlier, from_left, b);
        law_no_protocol_errors(left, right, earlier);
        if let Ok(before) = start.after_all(earlier) {
            if turn.on_left == from_left {
                lemma_finish_stays_final(
                    before.seen_from(from_left),
                    turn,
                    b,
                    start.put_on_link(earlier, from_left),
                );
            }
        }
    }
}

/// No data follows Finish: of all that one side ever puts on the link, nothing that
/// comes after Finish for a port is data for that port.
pub proof fn law_no_data_after_finish<Content>(
    left: Cfg,
    right: Cfg,
    turns: Seq<Turn<Content>>,
    from_left: bool,
    b: u32,
    i: int,
    j: int,
)
    requires
        left.valid() && right.valid(),
        Conversation::start(left, right).all_possible(turns),
        Conversation::<Content>::start(left, right).after_all(turns) is Ok,
        0 <= i < j < Conversation::<Content>::start(left, right).put_on_link(turns, from_left).len(),
        Conversation::start(left, right).put_on_link(turns, from_left)[i] == (MultiplexMsg::<
            Content,
        >::Finish { port: b }),
    ensures
        !(Conversation::start(left, right).put_on_link(turns, from_left)[j]
            matches MultiplexMsg::Data { port, .. } && port == b),
{
    lemma_finish_is_final(left, right, turns, from_left, b);
    let messages = Conversation::<Content>::start(left, right).put_on_link(turns, from_left);
    assert(messages[i] == finish::<Content>(b));
    assert(!(messages[j] is Data && about(messages[j]) == Some(b)));
}

/// What is known, at every moment, of the end of the data from the left side for
/// port `b` of the right side: `performed` is what the right multiplexer has done to
/// the receive buffer.
spec fn ending<Content>(
    view: Conversation<Content>,
    b: u32,
    got: Seq<Content>,
    performed: Seq<BufferStep<Content>>,
    hung_up: bool,
) -> bool {
    let (x, y) = (view.left, view.right);
    let finished = y.ports.contains_key(b) && !y.ports[b].rx_buffer;
    &&& finished ==> y.connected(b)
    &&& y.ports.contains_key(b) && y.ports[b].rx_finished ==> finished
    &&& forall|a: u32| #[trigger]
        x.ports.contains_key(a) && x.ports[a].tx_finished ==> x.connected(a)
    &&& forall|a: u32| #[trigger]
        x.connected(a) && x.ports[a].peer() == b && x.ports[a].tx_finished ==> {
            ||| y.ports.contains_key(b) && y.ports[b].rx_finished
            ||| view.to_right.contains(finish::<Content>(b))
        }
    &&& brought(performed) == got
    &&& !hung_up ==> closed_by(performed) == (if finished {
        Some(ChannelReceiverBufferCloseReason::Closed)
    } else {
        None
    })
}

/// A turn of the sending side keeps account of the end.
proof fn lemma_sender_turn_and_end<Content>(
    view: Conversation<Content>,
    turn: Turn<Content>,
    b: u32,
    got: Seq<Content>,
    performed: Seq<BufferStep<Content>>,
    hung_up: bool,
)
    requires
        view.consistent(),
        view.left_possible(turn),
        ending(view, b, got, performed, hung_up),
    ensures
        view.left_after(turn) matches Ok(after) ==> ending(after, b, got, performed, hung_up),
{
    if let Ok(after) = view.left_after(turn) {
        let (x, x1) = (view.left, after.left);
        let actions = view.left_reaction(turn)->Ok_0.1;
        let out = sent_by(actions, turn.flow);
        lemma_sent_by_few(actions, turn.flow);
        assert forall|a: u32| #[trigger]
            x1.connected(a) && x1.ports[a].peer() == b && x1.ports[a].tx_finished implies {
            ||| view.right.ports.contains_key(b) && view.right.ports[b].rx_finished
            ||| after.to_right.contains(finish::<Content>(b))
        } by {
            assert(x.ports.contains_key(a));
            if x.ports[a].tx_finished {
                assert(x.connected(a));
                if view.to_right.contains(finish::<Content>(b)) {
                    let i = choose|i: int|
                        0 <= i < view.to_right.len() && view.to_right[i] == finish::<Content>(b);
                    assert(after.to_right[i] == finish::<Content>(b));
                }
            } else {
                assert(out[0] == finish::<Content>(b));
                assert(after.to_right[view.to_right.len() as int] == finish::<Content>(b));
            }
        }
    }
}

/// What a few actions do to the receive buffer of a port.
proof fn lemma_performed_by_few<Content>(actions: Seq<Action<Content>>, b: u32)
    requires
        actions.len() <= 2,
    ensures
        performed_by(actions, b) == (if actions.len() == 0 {
            Seq::empty()
        } else if actions.len() == 1 {
            buffer_step(actions[0], b)
        } else {
            buffer_step(actions[0], b) + buffer_step(actions[1], b)
        }),
{
    reveal_with_fuel(performed_by, 3);
    if actions.len() == 1 {
        assert(actions.drop_first() =~= Seq::<Action<Content>>::empty());
        assert(performed_by(actions, b) =~= buffer_step(actions[0], b));
    }
    if actions.len() == 2 {
        assert(actions.drop_first() =~= seq![actions[1]]);
        assert(actions.drop_first().drop_first() =~= Seq::<Action<Content>>::empty());
        assert(performed_by(actions, b) =~= buffer_step(actions[0], b) + buffer_step(
            actions[1],
            b,
        ));
    }
}

/// A turn of the receiving side keeps account of the end.
proof fn lemma_receiver_turn_and_end<Content>(
    view: Conversation<Content>,
    turn: Turn<Content>,
    b: u32,
    got: Seq<Content>,
    performed: Seq<BufferStep<Content>>,
    hung_up: bool,
)
    requires
        view.consistent(),
        view.mirrored().left_possible(turn),
        ending(view, b, got, performed, hung_up),
    ensures
        view.mirrored().left_after(turn) matches Ok(after) ==> ending(
            after.mirrored(),
            b,
            got + view.mirrored().left_received(turn, b),
            performed + view.mirrored().left_performed(turn, b),
            hung_up || hangs_up(turn, b),
        ),
{
    if let Ok(after) = view.mirrored().left_after(turn) {
        let (x, y, y1) = (view.left, view.right, after.left);
        let actions = view.mirrored().left_reaction(turn)->Ok_0.1;
        let (down, down1) = (view.to_right, after.to_left);
        let more = view.mirrored().left_received(turn, b);
        let steps = view.mirrored().left_performed(turn, b);
        lemma_enqueued_by_few(actions, b);
        lemma_performed_by_few(actions, b);
        assert(steps.len() <= 1);
        if steps.len() == 0 {
            assert(performed + steps =~= performed);
            assert(more =~= Seq::<Content>::empty());
            assert(got + more =~= got);
        } else {
            assert(performed + steps =~= performed.push(steps[0]));
            assert(performed.push(steps[0]).drop_last() =~= performed);
            assert(got + more =~= brought(performed + steps));
        }
        assert forall|a: u32| #[trigger]
            x.connected(a) && x.ports[a].peer() == b && x.ports[a].tx_finished implies {
            ||| y1.ports.contains_key(b) && y1.ports[b].rx_finished
            ||| down1.contains(finish::<Content>(b))
        } by {
            if down.contains(finish::<Content>(b)) && turn.cause is Arrival {
                let i = choose|i: int| 0 <= i < down.len() && down[i] == finish::<Content>(b);
                if i > 0 {
                    assert(down1[i - 1] == finish::<Content>(b));
                }
            }
        }
    }
}

/// At every moment the account of the end of the data for a port is right.
proof fn lemma_ending<Content>(
    left: Cfg,
    right: Cfg,
    turns: Seq<Turn<Content>>,
    from_left: bool,
    b: u32,
)
    requires
        left.valid() && right.valid(),
        Conversation::start(left, right).all_possible(turns),
    ensures
        Conversation::start(left, right).after_all(turns) matches Ok(after) ==> ending(
            after.seen_from(from_left),
            b,
            Conversation::start(left, right).received_at(turns, !from_left, b),
            Conversation::start(left, right).performed_on(turns, !from_left, b),
            hung_up(turns, !from_left, b),
        ),
    decreases turns.len(),
{
    let start = Conversation::<Content>::start(left, right);
    if turns.len() > 0 {
        let (earlier, turn) = (turns.drop_last(), turns.last());
        lemma_ending(left, right, earlier, from_left, b);
        law_no_protocol_errors(left, right, earlier);
        if let Ok(before) = start.after_all(earlier) {
            let view = before.seen_from(from_left);
            let got = start.received_at(earlier, !from_left, b);
            let performed = start.performed_on(earlier, !from_left, b);
            let hung = hung_up(earlier, !from_left, b);
            if turn.on_left == from_left {
                lemma_sender_turn_and_end(view, turn, b, got, performed, hung);
            } else {
                assert(view.mirrored() == before.seen_from(turn.on_left));
                lemma_receiver_turn_and_end(view, turn, b, got, performed, hung);
            }
        }
    }
}

/// What the receiver on a port has taken so far is the beginning of what was sent to
/// that port, in order, however the taking and the arriving of items follow each
/// other. `steps` is what has happened to the receive buffer.
pub proof fn law_receiver_takes_what_was_sent<Content>(
    left: Cfg,
    right: Cfg,
    turns: Seq<Turn<Content>>,
    from_left: bool,
    b: u32,
    cfg: ChannelReceiverBufferCfg,
    steps: Seq<BufferStep<Content>>,
)
    requires
        left.valid() && right.valid(),
        Conversation::start(left, right).all_possible(turns),
        Conversation::<Content>::start(left, right).after_all(turns) is Ok,
        waits_for_room(cfg, steps),
        enqueuer_steps(steps) == Conversation::start(left, right).performed_on(
            turns,
            !from_left,
            b,
        ),
    ensures
        flow_after_all(cfg, steps).taken.is_prefix_of(sent_to(turns, from_left, b)),
{
    let got = Conversation::<Content>::start(left, right).received_at(turns, !from_left, b);
    let flow = flow_after_all(cfg, steps);
    let sent = sent_to(turns, from_left, b);
    lemma_ending(left, right, turns, from_left, b);
    law_data_arrives_in_order(left, right, turns, from_left, b);
    law_buffer_follows_its_enqueuer(cfg, steps);
    law_first_in_first_out(cfg, steps);
    assert(flow.taken + flow.buffer.items =~= got);
    assert forall|i: int| 0 <= i < flow.taken.len() implies flow.taken[i] == #[trigger] sent[i] by {
        assert(flow.taken[i] == got[i]);
    }
}

/// The stream of a receiver ends after everything that was sent. Once the sender at
/// the other end is gone and what it sent has arrived, what the receiver has taken,
/// followed by what is left in the receive buffer, is all that was sent. Read as a
/// stream, the receiver yields what is left, in order, and then ends for good.
///
/// A receiver that was closed is no exception: what was under way by then is still
/// received, and so is what the sender sends until it learns of it. Only one that
/// was dropped without having been closed loses what it has not taken.
pub proof fn law_stream_ends_after_everything_sent<Content>(
    left: Cfg,
    right: Cfg,
    turns: Seq<Turn<Content>>,
    from_left: bool,
    a: u32,
    b: u32,
    cfg: ChannelReceiverBufferCfg,
    steps: Seq<BufferStep<Content>>,
    receiver: ChannelReceiver,
    count: nat,
)
    requires
        left.valid() && right.valid(),
        Conversation::start(left, right).all_possible(turns),
        !hung_up(turns, !from_left, b),
        Conversation::<Content>::start(left, right).after_all(turns) matches Ok(after) && {
            let view = after.seen_from(from_left);
            &&& view.left.connected(a)
            &&& view.left.ports[a].peer() == b
            &&& view.left.ports[a].tx_finished
            &&& view.to_right.len() == 0
        },
        waits_for_room(cfg, steps),
        enqueuer_steps(steps) == Conversation::start(left, right).performed_on(
            turns,
            !from_left,
            b,
        ),
        !receiver.ended,
    ensures
        ({
            let flow = flow_after_all(cfg, steps);
            let read = stream_of(receiver, outcomes(flow.buffer, count));
            &&& flow.taken + flow.buffer.items == sent_to(turns, from_left, b)
            &&& flow.buffer.close_reason == Some(ChannelReceiverBufferCloseReason::Closed)
            &&& read.len() == count
            &&& forall|i: int|
                0 <= i < count ==> #[trigger] read[i] == (if i < flow.buffer.items.len() {
                    Some(Ok::<Content, ChannelReceiveError>(flow.buffer.items[i]))
                } else {
                    None
                })
        }),
{
    let start = Conversation::<Content>::start(left, right);
    let view = start.after_all(turns)->Ok_0.seen_from(from_left);
    let flow = flow_after_all(cfg, steps);
    lemma_ending(left, right, turns, from_left, b);
    assert(!view.to_right.contains(finish::<Content>(b)));
    assert(view.right.ports[b].rx_finished);
    law_nothing_lost_at_the_end(left, right, turns, from_left, b);
    law_buffer_follows_its_enqueuer(cfg, steps);
    law_first_in_first_out(cfg, steps);
    law_ended_buffer_is_read_to_the_end(flow.buffer, count);
    let end = if flow.buffer.items.len() < count {
        flow.buffer.items.len() as int
    } else {
        count as int
    };
    law_stream_yields_what_is_dequeued(receiver, outcomes(flow.buffer, count), end);
}

/// The request for the port `c` of the left side is under way.
pub open spec fn request_under_way<Content>(view: Conversation<Content>, c: u32) -> bool {
    exists|i: int|
        0 <= i < view.to_right.len() && #[trigger] request_of(view.to_right[i]) == Some(c)
}

/// The request for the port `c` of the left side is before a service of the right
/// side.
pub open spec fn request_pending<Content>(view: Conversation<Content>, c: u32) -> bool {
    exists|s: u32| #[trigger]
        view.right.requested_by_remote(s) && view.right.ports[s].peer() == c
}

/// The answer to the request for the port `c` of the left side is under way.
pub open spec fn answer_under_way<Content>(view: Conversation<Content>, c: u32) -> bool {
    exists|j: int| 0 <= j < view.to_left.len() && #[trigger] answer_to(view.to_left[j]) == Some(c)
}

/// Every request that the left side waits for is somewhere.
spec fn requests_tracked<Content>(view: Conversation<Content>) -> bool {
    forall|c: u32| #[trigger]
        view.left.requested_by_local(c) ==> request_under_way(view, c) || request_pending(view, c)
            || answer_under_way(view, c)
}

/// A turn of the asking side loses no request.
proof fn lemma_asking_turn<Content>(view: Conversation<Content>, turn: Turn<Content>)
    requires
        view.consistent(),
        view.left_possible(turn),
        requests_tracked(view),
    ensures
        view.left_after(turn) matches Ok(after) ==> requests_tracked(after),
{
    if let Ok(after) = view.left_after(turn) {
        let actions = view.left_reaction(turn)->Ok_0.1;
        lemma_sent_by_few(actions, turn.flow);
        assert forall|c: u32| #[trigger] after.left.requested_by_local(c) implies request_under_way(
            after,
            c,
        ) || request_pending(after, c) || answer_under_way(after, c) by {
            if !view.left.requested_by_local(c) {
                assert(turn.cause is Connect);
                let i = view.to_right.len() as int;
                assert(request_of(after.to_right[i]) == Some(c));
            } else if request_under_way(view, c) {
                let i = choose|i: int|
                    0 <= i < view.to_right.len() && #[trigger] request_of(view.to_right[i]) == Some(
                        c,
                    );
                assert(request_of(after.to_right[i]) == Some(c));
            } else if request_pending(view, c) {
                let s = choose|s: u32| #[trigger]
                    view.right.requested_by_remote(s) && view.right.ports[s].peer() == c;
                assert(after.right.requested_by_remote(s));
            } else if turn.cause is Arrival {
                let j = choose|j: int|
                    0 <= j < view.to_left.len() && #[trigger] answer_to(view.to_left[j]) == Some(c);
                assert(j > 0);
                assert(answer_to(after.to_left[j - 1]) == Some(c));
            }
        }
    }
}

/// A turn of the answering side loses no request.
proof fn lemma_answering_turn<Content>(view: Conversation<Content>, turn: Turn<Content>)
    requires
        view.consistent(),
        view.mirrored().left_possible(turn),
        requests_tracked(view),
    ensures
        view.mirrored().left_after(turn) matches Ok(after) ==> requests_tracked(after.mirrored()),
{
    if let Ok(mirrored) = view.mirrored().left_after(turn) {
        let after = mirrored.mirrored();
        let actions = view.mirrored().left_reaction(turn)->Ok_0.1;
        lemma_sent_by_few(actions, turn.flow);
        let (y, y1) = (view.right, after.right);
        assert forall|c: u32| #[trigger] after.left.requested_by_local(c) implies request_under_way(
            after,
            c,
        ) || request_pending(after, c) || answer_under_way(after, c) by {
            if answer_under_way(view, c) {
                let j = choose|j: int|
                    0 <= j < view.to_left.len() && #[trigger] answer_to(view.to_left[j]) == Some(c);
                assert(answer_to(after.to_left[j]) == Some(c));
            } else if request_pending(view, c) {
                let s = choose|s: u32| #[trigger]
                    y.requested_by_remote(s) && y.ports[s].peer() == c;
                if !y1.requested_by_remote(s) {
                    let j = view.to_left.len() as int;
                    assert(answer_to(after.to_left[j]) == Some(c));
                } else {
                    assert(y1.ports[s].peer() == c);
                }
            } else if turn.cause is Arrival {
                let i = choose|i: int|
                    0 <= i < view.to_right.len() && #[trigger] request_of(view.to_right[i]) == Some(
                        c,
                    );
                if i == 0 {
                    assert(y1.requested_by_remote(turn.fresh));
                } else {
                    assert(request_of(after.to_right[i - 1]) == Some(c));
                }
            }
        }
    }
}

/// No request is forgotten: at every moment, a request that waits for an answer is
/// on its way to the other side, or is before a service there, or its answer is on
/// the way back.
pub proof fn law_no_request_forgotten<Content>(
    left: Cfg,
    right: Cfg,
    turns: Seq<Turn<Content>>,
    on_left: bool,
    c: u32,
)
    requires
        left.valid() && right.valid(),
        Conversation::start(left, right).all_possible(turns),
    ensures
        Conversation::<Content>::start(left, right).after_all(turns) matches Ok(after) ==> {
            let view = after.seen_from(on_left);
            view.left.requested_by_local(c) ==> request_under_way(view, c) || request_pending(
                view,
                c,
            ) || answer_under_way(view, c)
        },
{
    lemma_requests_tracked(left, right, turns, on_left);
}

/// At every moment, every request is somewhere.
proof fn lemma_requests_tracked<Content>(
    left: Cfg,
    right: Cfg,
    turns: Seq<Turn<Content>>,
    on_left: bool,
)
    requires
        left.valid() && right.valid(),
        Conversation::start(left, right).all_possible(turns),
    ensures
        Conversation::<Content>::start(left, right).after_all(turns) matches Ok(after)
            ==> requests_tracked(after.seen_from(on_left)),
    decreases turns.len(),
{
    let start = Conversation::<Content>::start(left, right);
    if turns.len() > 0 {
        let (earlier, turn) = (turns.drop_last(), turns.last());
        lemma_requests_tracked(left, right, earlier, on_left);
        law_no_protocol_errors(left, right, earlier);
        if let Ok(before) = start.after_all(earlier) {
            let view = before.seen_from(on_left);
            if turn.on_left == on_left {
                lemma_asking_turn(view, turn);
            } else {
                assert(view.mirrored() == before.seen_from(turn.on_left));
                lemma_answering_turn(view, turn);
            }
        }
    }
}

} // verus!

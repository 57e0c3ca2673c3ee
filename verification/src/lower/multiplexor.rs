//! The table of channels, and what becomes of the packs on the transport.

use super::channel::{open_pack, InternalChannelWrapper};
use super::error::{MultiplexorChannelRegisterError, MultiplexorConnectError, MultiplexorError};
use super::message::{ChannelId, InnerSerializer, MultiplexPack, MultiplexRequestMsg};
use std::collections::HashMap;
use vstd::prelude::*;

verus! {

/// The channels of a multiplexor, each with what leads to its receiver.
///
/// The view is the table of channels, and `None` once the transport is closed.
pub struct LowerMultiplexor<Tx> {
    rx_channels: Option<HashMap<ChannelId, Tx>>,
}

impl<Tx> View for LowerMultiplexor<Tx> {
    type V = Option<Map<ChannelId, Tx>>;

    closed spec fn view(&self) -> Option<Map<ChannelId, Tx>> {
        match self.rx_channels {
            Some(rx_channels) => Some(rx_channels@),
            None => None,
        }
    }
}

/// What the task that serves the transport reacts to. `None` stands for the end
/// of the respective stream.
pub enum TaskEvent<Content> {
    /// A pack came from the transport.
    Received(Option<MultiplexPack<Content>>),
    /// A pack is to be sent over the transport.
    Queued(Option<MultiplexPack<Content>>),
}

/// What the task that serves the transport does next.
pub enum TaskStep<'a, Tx, Content> {
    /// Pass the content to the receiver of its channel.
    Deliver { rx_channel: &'a Tx, content: Content },
    /// There is no such channel.
    Discard,
    /// Send the pack over the transport.
    Transmit(MultiplexPack<Content>),
    /// Leave the loop.
    Stop,
}

/// What is done about `event`, given the channels `rx_channels`.
pub open spec fn task_step<'a, Tx, Content>(
    rx_channels: Option<Map<ChannelId, Tx>>,
    event: TaskEvent<Content>,
) -> TaskStep<'a, Tx, Content> {
    match event {
        TaskEvent::Received(Some(pack)) => match rx_channels {
            Some(channels) => if channels.contains_key(pack.channel) {
                TaskStep::Deliver { rx_channel: &channels[pack.channel], content: pack.content }
            } else {
                TaskStep::Discard
            },
            None => TaskStep::Discard,
        },
        TaskEvent::Queued(Some(pack)) => TaskStep::Transmit(pack),
        TaskEvent::Received(None) => TaskStep::Stop,
        TaskEvent::Queued(None) => TaskStep::Stop,
    }
}

/// Why channel `id` cannot be registered, if it cannot.
pub open spec fn register_refusal<Tx>(
    rx_channels: Option<Map<ChannelId, Tx>>,
    id: ChannelId,
) -> Option<MultiplexorChannelRegisterError> {
    match rx_channels {
        None => Some(MultiplexorChannelRegisterError::TransportClosed),
        Some(channels) => if channels.contains_key(id) {
            Some(MultiplexorChannelRegisterError::ChannelAlreadyInUse(id))
        } else {
            None
        },
    }
}

/// The channels once `id` has been registered: as before, where it cannot be.
pub open spec fn registered<Tx>(
    rx_channels: Option<Map<ChannelId, Tx>>,
    id: ChannelId,
    receiver_tx: Tx,
) -> Option<Map<ChannelId, Tx>> {
    match rx_channels {
        Some(channels) if !channels.contains_key(id) => Some(channels.insert(id, receiver_tx)),
        _ => rx_channels,
    }
}

impl<Tx> LowerMultiplexor<Tx> {
    /// Creates a multiplexor without channels.
    pub fn new() -> (multiplexor: LowerMultiplexor<Tx>)
        ensures
            multiplexor@ == Some(Map::<ChannelId, Tx>::empty()),
    {
        LowerMultiplexor { rx_channels: Some(HashMap::new()) }
    }

    /// The transport is closed: no channel can be registered any more.
    pub fn close(&mut self)
        ensures
            final(self)@ is None,
    {
        self.rx_channels = None;
    }

    /// The error of a channel whose serializer failed.
    pub fn map_serialization_error<SerErr, DeserErr>(err: SerErr) -> (error: MultiplexorError<
        SerErr,
        DeserErr,
    >)
        ensures
            error == MultiplexorError::<SerErr, DeserErr>::SerializationError(err),
    {
        MultiplexorError::SerializationError(err)
    }

    /// The error of a channel whose deserializer failed.
    pub fn map_deserialization_error<SerErr, DeserErr>(err: DeserErr) -> (error: MultiplexorError<
        SerErr,
        DeserErr,
    >)
        ensures
            error == MultiplexorError::<SerErr, DeserErr>::DeserializationError(err),
    {
        MultiplexorError::DeserializationError(err)
    }

    /// Registers a channel. `receiver_tx` leads to its receiver.
    pub fn register<Ser, Deser>(
        &mut self,
        id: ChannelId,
        receiver_tx: Tx,
        serializer: Ser,
        deserializer: Deser,
    ) -> (wrapper: Result<InternalChannelWrapper<Ser, Deser>, MultiplexorChannelRegisterError>)
        ensures
            wrapper == (match register_refusal(old(self)@, id) {
                Some(err) => Err(err),
                None => Ok(InternalChannelWrapper { id, serializer, deserializer }),
            }),
            final(self)@ == registered(old(self)@, id, receiver_tx),
    {
        match &mut self.rx_channels {
            Some(rx_channels) => {
                if rx_channels.contains_key(&id) {
                    return Err(MultiplexorChannelRegisterError::ChannelAlreadyInUse(id));
                } else {
                    rx_channels.insert(id, receiver_tx);
                }
            },
            None => {
                return Err(MultiplexorChannelRegisterError::TransportClosed);
            },
        }
        Ok(InternalChannelWrapper { id, serializer, deserializer })
    }

    /// Starts to open a channel: registers it, and packs the Open that is to be
    /// sent on it. The channel stays registered whatever comes of that.
    pub fn request_channel<SinkItem, IntSer, Ser, Deser, DeserErr>(
        &mut self,
        id: ChannelId,
        receiver_tx: Tx,
        serializer: Ser,
        deserializer: Deser,
    ) -> (opening: Result<
        (InternalChannelWrapper<Ser, Deser>, MultiplexPack<IntSer>),
        MultiplexorConnectError<Ser::Error, DeserErr>,
    >) where Ser: InnerSerializer<MultiplexRequestMsg<SinkItem>, IntSer>
        ensures
            final(self)@ == registered(old(self)@, id, receiver_tx),
            match register_refusal(old(self)@, id) {
                Some(MultiplexorChannelRegisterError::TransportClosed) => opening matches Err(err)
                    && err is TransportClosed,
                Some(MultiplexorChannelRegisterError::ChannelAlreadyInUse(used)) => opening == Err::<
                    (InternalChannelWrapper<Ser, Deser>, MultiplexPack<IntSer>),
                    MultiplexorConnectError<Ser::Error, DeserErr>,
                >(MultiplexorConnectError::ChannelAlreadyInUse(used)),
                None => exists|ser: &mut Ser, out: Result<IntSer, Ser::Error>|
                    {
                        &&& *ser == serializer
                        &&& #[trigger] call_ensures(
                            Ser::serialize,
                            (ser, &MultiplexRequestMsg::<SinkItem>::Open),
                            out,
                        )
                        &&& match open_pack::<IntSer, Ser::Error, DeserErr>(id, out) {
                            Ok(pack) => opening matches Ok(o) && o == (
                                InternalChannelWrapper {
                                    id,
                                    serializer: *final(ser),
                                    deserializer,
                                },
                                pack,
                            ),
                            Err(error) => opening matches Err(err) && err == error,
                        }
                    },
            },
    {
        let mut wrapper = match self.register(id, receiver_tx, serializer, deserializer) {
            Ok(wrapper) => wrapper,
            Err(err) => {
                return Err(MultiplexorConnectError::from(err));
            },
        };
        match wrapper.open::<SinkItem, IntSer, DeserErr>() {
            Ok(pack) => Ok((wrapper, pack)),
            Err(err) => Err(err),
        }
    }

    /// One turn of the task that serves the transport.
    pub fn tx_rx_step<'a, Content>(&'a self, event: TaskEvent<Content>) -> (step: TaskStep<
        'a,
        Tx,
        Content,
    >)
        ensures
            step == task_step::<Tx, Content>(self@, event),
            event matches TaskEvent::Queued(Some(pack)) ==> step == TaskStep::<
                Tx,
                Content,
            >::Transmit(pack),
    {
        match event {
            TaskEvent::Received(Some(MultiplexPack { channel, content })) => {
                match &self.rx_channels {
                    Some(rx_channels) => match rx_channels.get(&channel) {
                        Some(rx_channel) => TaskStep::Deliver { rx_channel, content },
                        None => TaskStep::Discard,
                    },
                    None => TaskStep::Discard,
                }
            },
            TaskEvent::Queued(Some(tx_pkt)) => TaskStep::Transmit(tx_pkt),
            TaskEvent::Received(None) => TaskStep::Stop,
            TaskEvent::Queued(None) => TaskStep::Stop,
        }
    }
}

/// A channel can be registered once: while the transport is open, whoever comes
/// second is refused, whatever was registered in between, and the receiver of
/// the first stays in place.
pub proof fn law_channel_registered_once<Tx>(
    rx_channels: Option<Map<ChannelId, Tx>>,
    id: ChannelId,
    first: Tx,
    others: Seq<(ChannelId, Tx)>,
)
    requires
        register_refusal(rx_channels, id) is None,
    ensures
        ({
            let after = registered_all(registered(rx_channels, id, first), others);
            &&& after matches Some(channels) && channels.contains_key(id) && channels[id] == first
            &&& register_refusal(after, id) == Some(
                MultiplexorChannelRegisterError::ChannelAlreadyInUse(id),
            )
        }),
    decreases others.len(),
{
    if others.len() > 0 {
        law_channel_registered_once(rx_channels, id, first, others.drop_last());
    }
}

/// The channels after `requests` to register have been made one after the other.
pub open spec fn registered_all<Tx>(
    rx_channels: Option<Map<ChannelId, Tx>>,
    requests: Seq<(ChannelId, Tx)>,
) -> Option<Map<ChannelId, Tx>>
    decreases requests.len(),
{
    if requests.len() == 0 {
        rx_channels
    } else {
        let before = registered_all(rx_channels, requests.drop_last());
        registered(before, requests.last().0, requests.last().1)
    }
}

/// A pack is delivered to the receiver that was registered for its channel and
/// to no other, with its content as it came, whatever else is registered later.
pub proof fn law_pack_reaches_its_channel<Tx, Content>(
    rx_channels: Option<Map<ChannelId, Tx>>,
    id: ChannelId,
    receiver_tx: Tx,
    others: Seq<(ChannelId, Tx)>,
    content: Content,
)
    requires
        register_refusal(rx_channels, id) is None,
    ensures
        task_step::<Tx, Content>(
            registered_all(registered(rx_channels, id, receiver_tx), others),
            TaskEvent::Received(Some(MultiplexPack { channel: id, content })),
        ) == (TaskStep::Deliver { rx_channel: &receiver_tx, content }),
{
    law_channel_registered_once(rx_channels, id, receiver_tx, others);
}

/// Registering a channel does not change what becomes of the packs of the others.
pub proof fn law_channels_are_independent<Tx, Content>(
    rx_channels: Option<Map<ChannelId, Tx>>,
    id: ChannelId,
    receiver_tx: Tx,
    pack: MultiplexPack<Content>,
)
    requires
        pack.channel != id,
    ensures
        task_step::<Tx, Content>(
            registered(rx_channels, id, receiver_tx),
            TaskEvent::Received(Some(pack)),
        ) == task_step::<Tx, Content>(rx_channels, TaskEvent::Received(Some(pack))),
{
}

/// A pack from the transmit queue is transmitted, with its channel and content as they
/// are, whatever channels are registered. Nothing else is transmitted: what is
/// delivered or discarded came from the transport.
pub proof fn law_queued_packs_are_transmitted<Tx, Content>(
    rx_channels: Option<Map<ChannelId, Tx>>,
    event: TaskEvent<Content>,
    pack: MultiplexPack<Content>,
)
    ensures
        task_step::<Tx, Content>(rx_channels, event) == TaskStep::<Tx, Content>::Transmit(pack)
            <==> event == TaskEvent::Queued(Some(pack)),
        ({
            let step = task_step::<Tx, Content>(rx_channels, event);
            &&& step is Deliver || step is Discard <==> (event matches TaskEvent::Received(
                Some(_),
            ))
            &&& step is Stop <==> event == TaskEvent::<Content>::Received(None) || event
                == TaskEvent::<Content>::Queued(None)
        }),
{
}

/// A pack from the transport is delivered exactly if its channel is registered: to the
/// receiver of that channel, with its content as it came. Otherwise it is discarded.
pub proof fn law_received_packs_are_delivered<Tx, Content>(
    channels: Map<ChannelId, Tx>,
    pack: MultiplexPack<Content>,
)
    ensures
        ({
            let step = task_step::<Tx, Content>(Some(channels), TaskEvent::Received(Some(pack)));
            &&& channels.contains_key(pack.channel) ==> step == (TaskStep::Deliver {
                rx_channel: &channels[pack.channel],
                content: pack.content,
            })
            &&& !channels.contains_key(pack.channel) ==> step is Discard
        }),
        task_step::<Tx, Content>(None, TaskEvent::Received(Some(pack))) is Discard,
{
}

/// The identifier occurs in one of `requests`.
pub open spec fn requested<Tx>(requests: Seq<(ChannelId, Tx)>, id: ChannelId) -> bool {
    exists|i: int| 0 <= i < requests.len() && (#[trigger] requests[i]).0 == id
}

/// While the transport is open, an identifier is refused exactly if it was requested
/// before, however many others were: one that is new is always registered.
pub proof fn law_new_channel_is_never_refused<Tx>(requests: Seq<(ChannelId, Tx)>, id: ChannelId)
    ensures
        ({
            let channels = registered_all(Some(Map::<ChannelId, Tx>::empty()), requests);
            &&& channels is Some
            &&& channels->0.contains_key(id) <==> requested(requests, id)
            &&& register_refusal(channels, id) is None <==> !requested(requests, id)
        }),
    decreases requests.len(),
{
    if requests.len() > 0 {
        let (before, n) = (requests.drop_last(), (requests.len() - 1) as int);
        law_new_channel_is_never_refused(before, id);
        law_new_channel_is_never_refused(before, requests.last().0);
        assert(requests[n] == requests.last());
        if requested(before, id) {
            let i = choose|i: int| 0 <= i < before.len() && (#[trigger] before[i]).0 == id;
            assert(requests[i].0 == id);
        }
        if requested(requests, id) && requests.last().0 != id {
            let i = choose|i: int| 0 <= i < requests.len() && (#[trigger] requests[i]).0 == id;
            assert(before[i].0 == id);
        }
    }
}

/// Registering adds exactly the identifier with its receiver, where it is not in the
/// table. Where it is, it is refused as in use, and where the transport is closed, for
/// that reason; then nothing changes. No other error is given.
pub proof fn law_registering<Tx>(
    channels: Map<ChannelId, Tx>,
    id: ChannelId,
    receiver_tx: Tx,
)
    ensures
        !channels.contains_key(id) ==> {
            &&& register_refusal(Some(channels), id) is None
            &&& registered(Some(channels), id, receiver_tx) == Some(
                channels.insert(id, receiver_tx),
            )
        },
        channels.contains_key(id) ==> {
            &&& register_refusal(Some(channels), id) == Some(
                MultiplexorChannelRegisterError::ChannelAlreadyInUse(id),
            )
            &&& registered(Some(channels), id, receiver_tx) == Some(channels)
        },
        register_refusal(None::<Map<ChannelId, Tx>>, id) == Some(
            MultiplexorChannelRegisterError::TransportClosed,
        ),
        registered(None, id, receiver_tx) is None,
{
}

} // verus!

//! A channel of the multiplexor: how it is opened, and what it sends.

use super::error::{MultiplexorConnectError, MultiplexorError, MultiplexorSendError};
use super::message::{
    ChannelId, InnerDeserializer, InnerSerializer, MultiplexPack, MultiplexRequestMsg,
    MultiplexResponseMsg,
};
use vstd::prelude::*;
use vstd::string::StringExecFns;

verus! {

/// The pack of channel `id` for what its serializer returned.
pub open spec fn packed<IntSer, SerErr>(id: ChannelId, out: Result<IntSer, SerErr>) -> Result<
    MultiplexPack<IntSer>,
    MultiplexorSendError<SerErr>,
> {
    match out {
        Ok(content) => Ok(MultiplexPack { channel: id, content }),
        Err(err) => Err(MultiplexorSendError::SerializationError(err)),
    }
}

/// The pack by which channel `id` is opened, for what its serializer returned for
/// Open.
pub open spec fn open_pack<IntSer, SerErr, DeserErr>(
    id: ChannelId,
    out: Result<IntSer, SerErr>,
) -> Result<MultiplexPack<IntSer>, MultiplexorConnectError<SerErr, DeserErr>> {
    match out {
        Ok(content) => Ok(MultiplexPack { channel: id, content }),
        Err(err) => Err(MultiplexorConnectError::SerializationError(err)),
    }
}

/// Makes the pack of channel `id` for what its serializer returned.
pub fn pack<IntSer, SerErr>(id: ChannelId, out: Result<IntSer, SerErr>) -> (pack: Result<
    MultiplexPack<IntSer>,
    MultiplexorSendError<SerErr>,
>)
    ensures
        pack == packed(id, out),
{
    match out {
        Ok(content) => Ok(MultiplexPack { channel: id, content }),
        Err(err) => Err(MultiplexorSendError::SerializationError(err)),
    }
}

/// What the reply to Open means. `None` stands for the end of the transport.
pub open spec fn opening<StreamItem, SerErr, DeserErr>(
    id: ChannelId,
    reply: Option<Result<MultiplexResponseMsg<StreamItem>, DeserErr>>,
) -> Result<(), MultiplexorConnectError<SerErr, DeserErr>> {
    match reply {
        None => Err(MultiplexorConnectError::TransportClosed),
        Some(Err(err)) => Err(MultiplexorConnectError::DeserializationError(err)),
        Some(Ok(MultiplexResponseMsg::Opened)) => Ok(()),
        Some(Ok(MultiplexResponseMsg::Refused)) => Err(
            MultiplexorConnectError::ConnectionRefused(id),
        ),
        Some(Ok(_)) => Err(MultiplexorConnectError::UnexpectedResponse),
    }
}

/// Decides what the reply to Open means. `None` stands for the end of the
/// transport.
pub fn open_outcome<StreamItem, SerErr, DeserErr>(
    id: ChannelId,
    reply: Option<Result<MultiplexResponseMsg<StreamItem>, DeserErr>>,
) -> (outcome: Result<(), MultiplexorConnectError<SerErr, DeserErr>>)
    ensures
        outcome == opening::<StreamItem, SerErr, DeserErr>(id, reply),
{
    let reply_msg = match reply {
        None => {
            return Err(MultiplexorConnectError::TransportClosed);
        },
        Some(Err(err)) => {
            return Err(MultiplexorConnectError::DeserializationError(err));
        },
        Some(Ok(reply_msg)) => reply_msg,
    };
    match reply_msg {
        MultiplexResponseMsg::Opened => Ok(()),
        MultiplexResponseMsg::Refused => Err(MultiplexorConnectError::ConnectionRefused(id)),
        _ => Err(MultiplexorConnectError::UnexpectedResponse),
    }
}

/// What is received on an open channel, for what its deserializer returned.
pub open spec fn unpacked<StreamItem, SerErr, DeserErr>(
    out: Result<MultiplexResponseMsg<StreamItem>, DeserErr>,
) -> Result<MultiplexResponseMsg<StreamItem>, MultiplexorError<SerErr, DeserErr>> {
    match out {
        Ok(msg) => Ok(msg),
        Err(err) => Err(MultiplexorError::DeserializationError(err)),
    }
}

/// Makes what is received on an open channel of what its deserializer returned.
pub fn unpack<StreamItem, SerErr, DeserErr>(
    out: Result<MultiplexResponseMsg<StreamItem>, DeserErr>,
) -> (received: Result<MultiplexResponseMsg<StreamItem>, MultiplexorError<SerErr, DeserErr>>)
    ensures
        received == unpacked::<StreamItem, SerErr, DeserErr>(out),
{
    match out {
        Ok(msg) => Ok(msg),
        Err(err) => Err(MultiplexorError::DeserializationError(err)),
    }
}

/// A channel that is registered with the multiplexor.
#[derive(Debug)]
pub struct InternalChannelWrapper<Ser, Deser> {
    pub id: ChannelId,
    pub serializer: Ser,
    pub deserializer: Deser,
}

impl<Ser, Deser> InternalChannelWrapper<Ser, Deser> {
    /// Serializes a message and packs it for the transmit queue.
    pub fn send<SinkItem, IntSer>(&mut self, msg: MultiplexRequestMsg<SinkItem>) -> (pack: Result<
        MultiplexPack<IntSer>,
        MultiplexorSendError<Ser::Error>,
    >) where Ser: InnerSerializer<MultiplexRequestMsg<SinkItem>, IntSer>
        ensures
            exists|ser: &mut Ser, out: Result<IntSer, Ser::Error>|
                {
                    &&& *ser == old(self).serializer
                    &&& *final(ser) == final(self).serializer
                    &&& #[trigger] call_ensures(Ser::serialize, (ser, &msg), out)
                    &&& pack == packed(old(self).id, out)
                },
            final(self).id == old(self).id,
            final(self).deserializer == old(self).deserializer,
    {
        let ser_msg = self.serializer.serialize(&msg);
        pack(self.id, ser_msg)
    }

    /// Serializes Open and packs it for the transmit queue.
    pub fn open<SinkItem, IntSer, DeserErr>(&mut self) -> (pack: Result<
        MultiplexPack<IntSer>,
        MultiplexorConnectError<Ser::Error, DeserErr>,
    >) where Ser: InnerSerializer<MultiplexRequestMsg<SinkItem>, IntSer>
        ensures
            exists|ser: &mut Ser, out: Result<IntSer, Ser::Error>|
                {
                    &&& *ser == old(self).serializer
                    &&& *final(ser) == final(self).serializer
                    &&& #[trigger] call_ensures(
                        Ser::serialize,
                        (ser, &MultiplexRequestMsg::<SinkItem>::Open),
                        out,
                    )
                    &&& pack == open_pack::<IntSer, Ser::Error, DeserErr>(old(self).id, out)
                },
            final(self).id == old(self).id,
            final(self).deserializer == old(self).deserializer,
    {
        match self.send(MultiplexRequestMsg::Open) {
            Ok(pack) => Ok(pack),
            Err(err) => Err(MultiplexorConnectError::from(err)),
        }
    }

    /// Deserializes the reply to Open and decides what it means. `None` stands
    /// for the end of the transport.
    pub fn receive_reply<StreamItem, IntSer, SerErr>(&mut self, reply: Option<IntSer>) -> (outcome:
        Result<(), MultiplexorConnectError<SerErr, Deser::Error>>) where
        Deser: InnerDeserializer<MultiplexResponseMsg<StreamItem>, IntSer>,

        ensures
            match reply {
                None => {
                    &&& outcome == Err::<(), MultiplexorConnectError<SerErr, Deser::Error>>(
                        MultiplexorConnectError::TransportClosed,
                    )
                    &&& *final(self) == *old(self)
                },
                Some(src) => exists|
                    deser: &mut Deser,
                    out: Result<MultiplexResponseMsg<StreamItem>, Deser::Error>,
                |
                    {
                        &&& *deser == old(self).deserializer
                        &&& *final(deser) == final(self).deserializer
                        &&& #[trigger] call_ensures(Deser::deserialize, (deser, &src), out)
                        &&& outcome == opening::<StreamItem, SerErr, Deser::Error>(
                            old(self).id,
                            Some(out),
                        )
                    },
            },
            final(self).id == old(self).id,
            final(self).serializer == old(self).serializer,
    {
        match reply {
            None => open_outcome::<StreamItem, SerErr, Deser::Error>(self.id, None),
            Some(src) => {
                let reply_msg = self.deserializer.deserialize(&src);
                open_outcome(self.id, Some(reply_msg))
            },
        }
    }
}

/// The sending side of an open channel.
pub struct MultiplexChannelSink<Ser> {
    pub channel: ChannelId,
    pub serializer: Ser,
}

impl<Ser> MultiplexChannelSink<Ser> {
    /// Serializes an item and packs it for the transmit queue.
    pub fn start_send<SinkItem, IntSer>(&mut self, item: MultiplexRequestMsg<SinkItem>) -> (pack:
        Result<MultiplexPack<IntSer>, MultiplexorSendError<Ser::Error>>) where
        Ser: InnerSerializer<MultiplexRequestMsg<SinkItem>, IntSer>,

        ensures
            exists|ser: &mut Ser, out: Result<IntSer, Ser::Error>|
                {
                    &&& *ser == old(self).serializer
                    &&& *final(ser) == final(self).serializer
                    &&& #[trigger] call_ensures(Ser::serialize, (ser, &item), out)
                    &&& pack == packed(old(self).channel, out)
                },
            final(self).channel == old(self).channel,
    {
        let tx_serialized = self.serializer.serialize(&item);
        pack(self.channel, tx_serialized)
    }

    /// The name of the channel sink for messages to people.
    pub fn label(&self) -> (text: String)
        ensures
            text@ == "MultiplexChannelSink "@ + decimal(self.channel as nat),
    {
        let mut text = "MultiplexChannelSink ".to_owned();
        let number = to_decimal(self.channel);
        text.append(number.as_str());
        text
    }
}

/// An open channel.
pub struct MultiplexChannel<Ser, Deser> {
    pub sink: MultiplexChannelSink<Ser>,
    pub deserializer: Deser,
}

impl<Ser, Deser> MultiplexChannel<Ser, Deser> {
    /// The open channel that becomes of a registered one.
    pub open spec fn of(channel: InternalChannelWrapper<Ser, Deser>) -> MultiplexChannel<
        Ser,
        Deser,
    > {
        MultiplexChannel {
            sink: MultiplexChannelSink { channel: channel.id, serializer: channel.serializer },
            deserializer: channel.deserializer,
        }
    }

    /// Finishes opening a channel, given the reply to the Open that was sent on
    /// it. `None` stands for the end of the transport.
    pub fn opened<StreamItem, IntSer, SerErr>(
        int_ch: InternalChannelWrapper<Ser, Deser>,
        reply: Option<IntSer>,
    ) -> (channel: Result<
        MultiplexChannel<Ser, Deser>,
        MultiplexorConnectError<SerErr, Deser::Error>,
    >) where Deser: InnerDeserializer<MultiplexResponseMsg<StreamItem>, IntSer>
        ensures
            match reply {
                None => channel matches Err(err) && err is TransportClosed,
                Some(src) => exists|
                    deser: &mut Deser,
                    out: Result<MultiplexResponseMsg<StreamItem>, Deser::Error>,
                |
                    {
                        &&& *deser == int_ch.deserializer
                        &&& #[trigger] call_ensures(Deser::deserialize, (deser, &src), out)
                        &&& match opening::<StreamItem, SerErr, Deser::Error>(
                            int_ch.id,
                            Some(out),
                        ) {
                            Ok(()) => channel matches Ok(c) && c == MultiplexChannel::of(
                                InternalChannelWrapper { deserializer: *final(deser), ..int_ch },
                            ),
                            Err(error) => channel matches Err(err) && err == error,
                        }
                    },
            },
    {
        let mut int_ch = int_ch;
        match int_ch.receive_reply::<StreamItem, IntSer, SerErr>(reply) {
            Ok(()) => Ok(
                MultiplexChannel {
                    sink: MultiplexChannelSink {
                        channel: int_ch.id,
                        serializer: int_ch.serializer,
                    },
                    deserializer: int_ch.deserializer,
                },
            ),
            Err(err) => Err(err),
        }
    }

    /// Deserializes content that has arrived on the channel.
    pub fn receive<StreamItem, IntSer, SerErr>(&mut self, content: IntSer) -> (received: Result<
        MultiplexResponseMsg<StreamItem>,
        MultiplexorError<SerErr, Deser::Error>,
    >) where Deser: InnerDeserializer<MultiplexResponseMsg<StreamItem>, IntSer>
        ensures
            exists|deser: &mut Deser, out: Result<MultiplexResponseMsg<StreamItem>, Deser::Error>|
                {
                    &&& *deser == old(self).deserializer
                    &&& *final(deser) == final(self).deserializer
                    &&& #[trigger] call_ensures(Deser::deserialize, (deser, &content), out)
                    &&& received == unpacked::<StreamItem, SerErr, Deser::Error>(out)
                },
            final(self).sink == old(self).sink,
    {
        let out = self.deserializer.deserialize(&content);
        unpack(out)
    }

    /// The name of the channel for messages to people.
    pub fn label(&self) -> (text: String)
        ensures
            text@ == "MultiplexChannel"@,
    {
        "MultiplexChannel".to_owned()
    }
}

/// The sending side of a channel that is opened by creating it.
pub struct MultiplexChannelSink2<Ser, Deser> {
    pub channel: InternalChannelWrapper<Ser, Deser>,
}

impl<Ser, Deser> MultiplexChannelSink2<Ser, Deser> {
    /// Finishes opening the channel, given the reply to the Open that was sent
    /// on it. `None` stands for the end of the transport.
    pub fn new<StreamItem, IntSer, SerErr>(
        int_ch: InternalChannelWrapper<Ser, Deser>,
        reply: Option<IntSer>,
    ) -> (sink: Result<
        MultiplexChannelSink2<Ser, Deser>,
        MultiplexorConnectError<SerErr, Deser::Error>,
    >) where Deser: InnerDeserializer<MultiplexResponseMsg<StreamItem>, IntSer>
        ensures
            match reply {
                None => sink matches Err(err) && err is TransportClosed,
                Some(src) => exists|
                    deser: &mut Deser,
                    out: Result<MultiplexResponseMsg<StreamItem>, Deser::Error>,
                |
                    {
                        &&& *deser == int_ch.deserializer
                        &&& #[trigger] call_ensures(Deser::deserialize, (deser, &src), out)
                        &&& match opening::<StreamItem, SerErr, Deser::Error>(
                            int_ch.id,
                            Some(out),
                        ) {
                            Ok(()) => sink matches Ok(s) && s.channel == (InternalChannelWrapper {
                                deserializer: *final(deser),
                                ..int_ch
                            }),
                            Err(error) => sink matches Err(err) && err == error,
                        }
                    },
            },
    {
        let mut channel = int_ch;
        match channel.receive_reply::<StreamItem, IntSer, SerErr>(reply) {
            Ok(()) => Ok(MultiplexChannelSink2 { channel }),
            Err(err) => Err(err),
        }
    }
}

/// The decimal digit `d`.
pub open spec fn digit(d: nat) -> char {
    (48 + d) as char
}

/// The decimal digits of `n`.
pub open spec fn decimal(n: nat) -> Seq<char>
    decreases n,
{
    if n < 10 {
        seq![digit(n)]
    } else {
        decimal(n / 10).push(digit(n % 10))
    }
}

/// Writes `n` in decimal digits.
fn to_decimal(n: u32) -> (text: String)
    ensures
        text@ == decimal(n as nat),
    decreases n,
{
    let mut text = if n < 10 {
        String::new()
    } else {
        to_decimal(n / 10)
    };
    let last: &str = match n % 10 {
        0 => "0",
        1 => "1",
        2 => "2",
        3 => "3",
        4 => "4",
        5 => "5",
        6 => "6",
        7 => "7",
        8 => "8",
        _ => "9",
    };
    proof {
        reveal_strlit("0");
        reveal_strlit("1");
        reveal_strlit("2");
        reveal_strlit("3");
        reveal_strlit("4");
        reveal_strlit("5");
        reveal_strlit("6");
        reveal_strlit("7");
        reveal_strlit("8");
        reveal_strlit("9");
        assert(last@ =~= seq![digit((n % 10) as nat)]);
    }
    text.append(last);
    assert(text@ =~= decimal(n as nat));
    text
}

/// A pack carries the channel it is sent on and what the serializer made of the
/// message, as it is. Where the serializer fails, its error is passed on, and nothing
/// is packed.
pub proof fn law_pack_carries_channel_and_content<IntSer, SerErr, DeserErr>(
    id: ChannelId,
    content: IntSer,
    err: SerErr,
)
    ensures
        packed::<IntSer, SerErr>(id, Ok(content)) matches Ok(pack) && pack.channel == id
            && pack.content == content,
        packed::<IntSer, SerErr>(id, Err(err)) == Err::<
            MultiplexPack<IntSer>,
            MultiplexorSendError<SerErr>,
        >(MultiplexorSendError::SerializationError(err)),
        open_pack::<IntSer, SerErr, DeserErr>(id, Ok(content)) matches Ok(pack) && pack.channel
            == id && pack.content == content,
        open_pack::<IntSer, SerErr, DeserErr>(id, Err(err)) == Err::<
            MultiplexPack<IntSer>,
            MultiplexorConnectError<SerErr, DeserErr>,
        >(MultiplexorConnectError::SerializationError(err)),
{
}

/// A channel is open exactly if the reply to Open is Opened. It is refused, under its
/// own identifier, exactly if the reply is Refused. The end of the transport, and a
/// reply that cannot be deserialized, are reported as such, and every other reply is
/// unexpected.
pub proof fn law_only_opened_opens<StreamItem, SerErr, DeserErr>(
    id: ChannelId,
    reply: MultiplexResponseMsg<StreamItem>,
    err: DeserErr,
)
    ensures
        ({
            let outcome = opening::<StreamItem, SerErr, DeserErr>(id, Some(Ok(reply)));
            &&& outcome is Ok <==> reply is Opened
            &&& outcome == Err::<(), MultiplexorConnectError<SerErr, DeserErr>>(
                MultiplexorConnectError::ConnectionRefused(id),
            ) <==> reply is Refused
            &&& outcome == Err::<(), MultiplexorConnectError<SerErr, DeserErr>>(
                MultiplexorConnectError::UnexpectedResponse,
            ) <==> !(reply is Opened || reply is Refused)
        }),
        opening::<StreamItem, SerErr, DeserErr>(id, None) == Err::<
            (),
            MultiplexorConnectError<SerErr, DeserErr>,
        >(MultiplexorConnectError::TransportClosed),
        opening::<StreamItem, SerErr, DeserErr>(id, Some(Err(err))) == Err::<
            (),
            MultiplexorConnectError<SerErr, DeserErr>,
        >(MultiplexorConnectError::DeserializationError(err)),
{
}

/// What is received on an open channel is what the deserializer made of it. Where the
/// deserializer fails, its error is passed on.
pub proof fn law_received_as_deserialized<StreamItem, SerErr, DeserErr>(
    msg: MultiplexResponseMsg<StreamItem>,
    err: DeserErr,
)
    ensures
        unpacked::<StreamItem, SerErr, DeserErr>(Ok(msg)) == Ok::<
            MultiplexResponseMsg<StreamItem>,
            MultiplexorError<SerErr, DeserErr>,
        >(msg),
        unpacked::<StreamItem, SerErr, DeserErr>(Err(err)) == Err::<
            MultiplexResponseMsg<StreamItem>,
            MultiplexorError<SerErr, DeserErr>,
        >(MultiplexorError::DeserializationError(err)),
{
}

/// An open channel keeps the identifier, the serializer and the deserializer with
/// which it was registered.
pub proof fn law_open_channel_keeps_its_parts<Ser, Deser>(
    channel: InternalChannelWrapper<Ser, Deser>,
)
    ensures
        MultiplexChannel::of(channel).sink.channel == channel.id,
        MultiplexChannel::of(channel).sink.serializer == channel.serializer,
        MultiplexChannel::of(channel).deserializer == channel.deserializer,
{
}

/// The number that decimal digits stand for.
pub open spec fn value_of(text: Seq<char>) -> int
    decreases text.len(),
{
    if text.len() == 0 {
        0
    } else {
        value_of(text.drop_last()) * 10 + (text.last() as int - '0' as int)
    }
}

/// A number in decimal digits stands for that number: it has at least one digit, all
/// are digits, and the first is no zero unless it is the only one.
pub proof fn law_decimal_stands_for_its_number(n: nat)
    ensures
        value_of(decimal(n)) == n,
        decimal(n).len() > 0,
        forall|i: int| 0 <= i < decimal(n).len() ==> '0' <= #[trigger] decimal(n)[i] <= '9',
        decimal(n).len() > 1 ==> decimal(n)[0] != '0',
    decreases n,
{
    reveal_with_fuel(value_of, 2);
    if n >= 10 {
        law_decimal_stands_for_its_number(n / 10);
        assert(decimal(n).drop_last() =~= decimal(n / 10));
        if n / 10 < 10 {
            assert(decimal(n / 10)[0] != '0');
        }
    } else {
        assert(decimal(n).drop_last() =~= Seq::<char>::empty());
    }
}

} // verus!

use futures::channel::mpsc;
use multiplex::lower::buffer::{BufferStep, ChannelReceiverBuffer};
use multiplex::lower::channel::{
    open_outcome, unpack, InternalChannelWrapper, MultiplexChannel, MultiplexChannelSink,
    MultiplexChannelSink2,
};
use multiplex::lower::error::{
    LowerMultiplexorError, MultiplexorChannelRegisterError, MultiplexorConnectError,
    MultiplexorError, MultiplexorSendError,
};
use multiplex::lower::message::{
    InnerDeserializer, InnerSerializer, Msg, MultiplexPack, MultiplexRequestMsg,
    MultiplexResponseMsg,
};
use multiplex::lower::multiplexor::{LowerMultiplexor, TaskEvent, TaskStep};

/// Writes messages as text, and counts them.
struct TextSerializer {
    count: u32,
    broken: bool,
}

impl InnerSerializer<MultiplexRequestMsg<u32>, String> for TextSerializer {
    type Error = &'static str;

    fn serialize(&mut self, item: &MultiplexRequestMsg<u32>) -> Result<String, Self::Error> {
        self.count += 1;
        if self.broken {
            return Err("broken");
        }
        Ok(match item {
            MultiplexRequestMsg::Open => "open".to_string(),
            MultiplexRequestMsg::Request(n) => format!("request {}", n),
            MultiplexRequestMsg::Close => "close".to_string(),
        })
    }
}

/// Reads messages from text.
struct TextDeserializer;

impl InnerDeserializer<MultiplexResponseMsg<u32>, String> for TextDeserializer {
    type Error = String;

    fn deserialize(&mut self, src: &String) -> Result<MultiplexResponseMsg<u32>, Self::Error> {
        match src.as_str() {
            "opened" => Ok(MultiplexResponseMsg::Opened),
            "refused" => Ok(MultiplexResponseMsg::Refused),
            "pause" => Ok(MultiplexResponseMsg::Pause),
            "closed" => Ok(MultiplexResponseMsg::Closed),
            other => Err(other.to_string()),
        }
    }
}

type ConnectError = MultiplexorConnectError<&'static str, String>;

fn serializer() -> TextSerializer {
    TextSerializer { count: 0, broken: false }
}

fn wrapper(id: u32) -> InternalChannelWrapper<TextSerializer, TextDeserializer> {
    InternalChannelWrapper { id, serializer: serializer(), deserializer: TextDeserializer }
}

fn request(
    multiplexor: &mut LowerMultiplexor<&'static str>,
    id: u32,
    tx: &'static str,
    serializer: TextSerializer,
) -> Result<
    (InternalChannelWrapper<TextSerializer, TextDeserializer>, MultiplexPack<String>),
    ConnectError,
> {
    multiplexor.request_channel::<u32, String, _, _, String>(id, tx, serializer, TextDeserializer)
}

#[test]
fn requested_channel_is_registered_and_opened() {
    let mut multiplexor = LowerMultiplexor::new();
    let (wrapper, pack) = request(&mut multiplexor, 7, "seven", serializer()).unwrap_or_else(|_| {
        panic!("must be registered")
    });
    assert_eq!((wrapper.id, wrapper.serializer.count), (7, 1));
    assert_eq!((pack.channel, pack.content.as_str()), (7, "open"));
}

#[test]
fn channel_is_registered_once() {
    let mut multiplexor = LowerMultiplexor::new();
    assert!(multiplexor.register(7, "first", (), ()).is_ok());
    assert!(multiplexor.register(8, "other", (), ()).is_ok());
    assert!(matches!(
        multiplexor.register(7, "second", (), ()),
        Err(MultiplexorChannelRegisterError::ChannelAlreadyInUse(7))
    ));
    assert!(matches!(
        request(&mut multiplexor, 8, "second", serializer()),
        Err(MultiplexorConnectError::ChannelAlreadyInUse(8))
    ));
    match multiplexor.tx_rx_step(TaskEvent::Received(Some(MultiplexPack {
        channel: 7,
        content: "x",
    }))) {
        TaskStep::Deliver { rx_channel, content } => {
            assert_eq!((*rx_channel, content), ("first", "x"))
        }
        _ => panic!("must be delivered"),
    }
}

#[test]
fn channel_stays_registered_when_opening_fails() {
    let mut multiplexor = LowerMultiplexor::new();
    let broken = TextSerializer { count: 0, broken: true };
    assert!(matches!(
        request(&mut multiplexor, 7, "seven", broken),
        Err(MultiplexorConnectError::SerializationError("broken"))
    ));
    assert!(matches!(
        request(&mut multiplexor, 7, "again", serializer()),
        Err(MultiplexorConnectError::ChannelAlreadyInUse(7))
    ));
}

#[test]
fn closed_transport_registers_nothing() {
    let mut multiplexor = LowerMultiplexor::new();
    assert!(multiplexor.register(7, "seven", (), ()).is_ok());
    multiplexor.close();
    assert!(matches!(
        multiplexor.register(8, "eight", (), ()),
        Err(MultiplexorChannelRegisterError::TransportClosed)
    ));
    assert!(matches!(
        request(&mut multiplexor, 7, "seven", serializer()),
        Err(MultiplexorConnectError::TransportClosed)
    ));
    let pack = MultiplexPack { channel: 7, content: "x" };
    assert!(matches!(
        multiplexor.tx_rx_step(TaskEvent::Received(Some(pack))),
        TaskStep::Discard
    ));
}

#[test]
fn packs_reach_their_channel_only() {
    let mut multiplexor = LowerMultiplexor::new();
    for (id, tx) in [(1, "one"), (2, "two")] {
        assert!(multiplexor.register(id, tx, (), ()).is_ok());
    }
    for (id, tx) in [(1, "one"), (2, "two")] {
        let pack = MultiplexPack { channel: id, content: id * 10 };
        match multiplexor.tx_rx_step(TaskEvent::Received(Some(pack))) {
            TaskStep::Deliver { rx_channel, content } => {
                assert_eq!((*rx_channel, content), (tx, id * 10))
            }
            _ => panic!("must be delivered"),
        }
    }
    let pack = MultiplexPack { channel: 3, content: 30 };
    assert!(matches!(
        multiplexor.tx_rx_step(TaskEvent::Received(Some(pack))),
        TaskStep::Discard
    ));
}

#[test]
fn queued_packs_are_transmitted_and_ends_stop() {
    let multiplexor: LowerMultiplexor<()> = LowerMultiplexor::new();
    let pack = MultiplexPack { channel: 3, content: "x" };
    match multiplexor.tx_rx_step(TaskEvent::Queued(Some(pack))) {
        TaskStep::Transmit(pack) => assert_eq!((pack.channel, pack.content), (3, "x")),
        _ => panic!("must be transmitted"),
    }
    assert!(matches!(multiplexor.tx_rx_step(TaskEvent::<u8>::Queued(None)), TaskStep::Stop));
    assert!(matches!(multiplexor.tx_rx_step(TaskEvent::<u8>::Received(None)), TaskStep::Stop));
}

#[test]
fn reply_decides_whether_channel_opens() {
    let outcome = |reply| open_outcome::<u32, &'static str, String>(5, reply);
    assert!(matches!(outcome(None), Err(MultiplexorConnectError::TransportClosed)));
    assert!(matches!(outcome(Some(Ok(MultiplexResponseMsg::Opened))), Ok(())));
    assert!(matches!(
        outcome(Some(Ok(MultiplexResponseMsg::Refused))),
        Err(MultiplexorConnectError::ConnectionRefused(5))
    ));
    for unexpected in [
        MultiplexResponseMsg::Response(1),
        MultiplexResponseMsg::Pause,
        MultiplexResponseMsg::Resume,
        MultiplexResponseMsg::Closed,
    ] {
        assert!(matches!(
            outcome(Some(Ok(unexpected))),
            Err(MultiplexorConnectError::UnexpectedResponse)
        ));
    }
    match outcome(Some(Err("garbled".to_string()))) {
        Err(MultiplexorConnectError::DeserializationError(err)) => assert_eq!(err, "garbled"),
        _ => panic!("must fail"),
    }
}

#[test]
fn replies_are_deserialized() {
    let reply = |text: &str| -> Result<_, ConnectError> {
        MultiplexChannel::opened::<u32, String, &'static str>(wrapper(5), Some(text.to_string()))
    };
    match reply("opened") {
        Ok(channel) => assert_eq!(channel.sink.channel, 5),
        Err(_) => panic!("must open"),
    }
    assert!(matches!(reply("refused"), Err(MultiplexorConnectError::ConnectionRefused(5))));
    assert!(matches!(reply("pause"), Err(MultiplexorConnectError::UnexpectedResponse)));
    assert!(matches!(reply("?"), Err(MultiplexorConnectError::DeserializationError(_))));

    let none: Result<_, ConnectError> =
        MultiplexChannel::opened::<u32, String, &'static str>(wrapper(5), None);
    assert!(matches!(none, Err(MultiplexorConnectError::TransportClosed)));
}

#[test]
fn content_of_an_open_channel_is_deserialized() {
    let opened: Result<_, ConnectError> = MultiplexChannel::opened::<u32, String, &'static str>(
        wrapper(5),
        Some("opened".to_string()),
    );
    let mut channel = match opened {
        Ok(channel) => channel,
        Err(_) => panic!("must open"),
    };
    let closed = channel.receive::<u32, String, &'static str>("closed".to_string());
    assert!(matches!(closed, Ok(MultiplexResponseMsg::Closed)));
    match channel.receive::<u32, String, &'static str>("?".to_string()) {
        Err(MultiplexorError::DeserializationError(err)) => assert_eq!(err, "?"),
        _ => panic!("must fail"),
    }
    let out: Result<MultiplexResponseMsg<u32>, String> = Ok(MultiplexResponseMsg::Response(3));
    assert!(matches!(unpack::<u32, (), String>(out), Ok(MultiplexResponseMsg::Response(3))));
}

#[test]
fn sink_is_made_when_its_channel_opens() {
    let reply = |text: &str| -> Result<_, ConnectError> {
        MultiplexChannelSink2::new::<u32, String, &'static str>(wrapper(6), Some(text.to_string()))
    };
    match reply("opened") {
        Ok(sink) => assert_eq!(sink.channel.id, 6),
        Err(_) => panic!("must open"),
    }
    assert!(matches!(reply("refused"), Err(MultiplexorConnectError::ConnectionRefused(6))));
    assert!(matches!(reply("closed"), Err(MultiplexorConnectError::UnexpectedResponse)));
}

#[test]
fn messages_are_serialized_and_packed() {
    let mut channel = wrapper(9);
    let pack = channel.send(MultiplexRequestMsg::Request(3)).unwrap();
    assert_eq!((pack.channel, pack.content.as_str()), (9, "request 3"));
    let pack = channel.send(MultiplexRequestMsg::Close).unwrap();
    assert_eq!(pack.content, "close");
    assert_eq!(channel.serializer.count, 2);

    channel.serializer.broken = true;
    assert!(matches!(
        channel.send(MultiplexRequestMsg::Request(4)),
        Err(MultiplexorSendError::SerializationError("broken"))
    ));

    let mut sink = MultiplexChannelSink { channel: 10, serializer: serializer() };
    let pack = sink.start_send(MultiplexRequestMsg::Request(5)).unwrap();
    assert_eq!((pack.channel, pack.content.as_str()), (10, "request 5"));
}

#[test]
fn channels_have_names() {
    for (id, name) in [
        (0, "MultiplexChannelSink 0"),
        (7, "MultiplexChannelSink 7"),
        (10, "MultiplexChannelSink 10"),
        (1234567890, "MultiplexChannelSink 1234567890"),
        (u32::MAX, "MultiplexChannelSink 4294967295"),
    ] {
        let sink = MultiplexChannelSink { channel: id, serializer: () };
        assert_eq!(sink.label(), name);
        assert_eq!(MultiplexChannel { sink, deserializer: () }.label(), "MultiplexChannel");
    }
}

#[test]
fn errors_become_others() {
    type Error = MultiplexorError<u8, u16>;
    assert!(matches!(
        Error::from(LowerMultiplexorError::ChannelAlreadyInUse(3)),
        MultiplexorError::ChannelAlreadyInUse(3)
    ));
    assert!(matches!(
        Error::from(LowerMultiplexorError::ConnectionClosed),
        MultiplexorError::ConnectionClosed
    ));
    type Connect = MultiplexorConnectError<u8, u16>;
    assert!(matches!(
        Connect::from(MultiplexorChannelRegisterError::ChannelAlreadyInUse(3)),
        MultiplexorConnectError::ChannelAlreadyInUse(3)
    ));
    assert!(matches!(
        Connect::from(MultiplexorChannelRegisterError::TransportClosed),
        MultiplexorConnectError::TransportClosed
    ));
    assert!(matches!(
        Connect::from(MultiplexorSendError::TransportClosed),
        MultiplexorConnectError::TransportClosed
    ));
    assert!(matches!(
        Connect::from(MultiplexorSendError::SerializationError(4)),
        MultiplexorConnectError::SerializationError(4)
    ));
    assert!(matches!(
        LowerMultiplexor::<()>::map_serialization_error::<u8, u16>(1),
        MultiplexorError::SerializationError(1)
    ));
    assert!(matches!(
        LowerMultiplexor::<()>::map_deserialization_error::<u8, u16>(2),
        MultiplexorError::DeserializationError(2)
    ));
}

#[test]
fn transmit_queue_that_is_gone_means_closed_transport() {
    let (mut tx, rx) = mpsc::channel::<u8>(1);
    drop(rx);
    let err = tx.try_send(1).unwrap_err().into_send_error();
    assert!(matches!(
        MultiplexorSendError::<()>::checked_from_send_error(err.clone()),
        Some(MultiplexorSendError::TransportClosed)
    ));
    assert!(matches!(
        MultiplexorSendError::<()>::from_send_error(err),
        MultiplexorSendError::TransportClosed
    ));
}

#[test]
fn transmit_queue_that_is_full_is_still_there() {
    let (mut tx, _rx) = mpsc::channel::<u8>(0);
    tx.try_send(1).unwrap();
    let err = tx.try_send(2).unwrap_err().into_send_error();
    assert!(MultiplexorSendError::<()>::checked_from_send_error(err).is_none());
}

#[test]
fn long_buffer_pauses_its_sender() {
    let mut buffer = ChannelReceiverBuffer::new(31, 1, 2, 3);
    let mut pauses = Vec::new();
    for item in 0..3 {
        match buffer.enqueue::<String>(item) {
            BufferStep::Stored { flow_control } => pauses.push(flow_control),
            BufferStep::Full { .. } => panic!("there is room"),
        }
    }
    assert!(pauses[0].is_none() && pauses[2].is_none());
    match &pauses[1] {
        Some(MultiplexPack { channel, content: Msg::Pause }) => assert_eq!(*channel, 31),
        _ => panic!("must pause"),
    }
    match buffer.enqueue::<String>(99) {
        BufferStep::Full { item, mut room } => {
            assert_eq!(item, 99);
            assert_eq!(room.try_recv(), Ok(None));
        }
        BufferStep::Stored { .. } => panic!("there is no room"),
    }
}

//! What channels exchange, and how it is serialized.

use vstd::prelude::*;

verus! {

/// Identifies a channel.
pub type ChannelId = u32;

/// Serializes items of type `T` into the intermediate representation `I`.
pub trait InnerSerializer<T, I> {
    type Error;

    fn serialize(&mut self, item: &T) -> Result<I, Self::Error>;
}

/// Deserializes items of type `T` from the intermediate representation `I`.
pub trait InnerDeserializer<T, I> {
    type Error;

    fn deserialize(&mut self, src: &I) -> Result<T, Self::Error>;
}

/// What the requesting side of a channel sends.
#[derive(Debug)]
pub enum MultiplexRequestMsg<Item> {
    Open,
    Request(Item),
    Close,
}

/// What the responding side of a channel sends.
#[derive(Debug)]
pub enum MultiplexResponseMsg<Item> {
    Opened,
    Refused,
    Response(Item),
    Pause,
    Resume,
    Closed,
}

/// What is said about a channel, or on it.
#[derive(Debug)]
pub enum Msg<IntSer> {
    Open,
    Opened,
    Refused,
    Msg(IntSer),
    Pause,
    Resume,
    Finish,
}

/// Content on its way to or from a channel.
#[derive(Debug)]
pub struct MultiplexPack<Content> {
    pub channel: ChannelId,
    pub content: Content,
}

} // verus!

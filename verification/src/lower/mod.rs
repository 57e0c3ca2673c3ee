//! The multiplexor that addresses channels by an identifier that both sides know.
//!
//! Items of a channel are serialized into an intermediate representation, which
//! travels in packs that carry the identifier of the channel.

pub mod buffer;
pub mod channel;
pub mod error;
pub mod message;
pub mod multiplexor;

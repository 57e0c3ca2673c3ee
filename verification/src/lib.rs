//! A transport multiplexer: many channels over one ordered, reliable link.
//!
//! The crate holds the decisions of the multiplexer as plain, verified state
//! machines. None of them waits, locks or performs I/O: a caller hands in an
//! event and gets back what is to be done about it.
//!
//! * [`allocator`]: random, unique port numbers.
//! * [`send_lock`]: whether a channel may send right now.
//! * [`receive_buffer`]: the bounded receive queue of a channel and its flow control.
//! * [`message`]: what travels over the link and between channels and multiplexer.
//! * [`channel`]: the two ends of a channel, and requests to open one.
//! * [`ports`]: the port table and the event loop of the multiplexer.
//! * [`port_laws`]: what each event does to a port, and what is done about it.
//! * [`laws`]: what holds of every step of a multiplexer, and of the exchange of
//!   messages between two.
//! * [`conversation`]: what holds of two multiplexers that talk to each other, at
//!   every moment.
//! * [`lower`]: the multiplexor that addresses channels by a fixed identifier.
//! * [`external`]: what is trusted of the crates this one calls.

pub mod allocator;
pub mod channel;
pub mod conversation;
pub mod external;
pub mod laws;
pub mod lower;
pub mod message;
pub mod port_laws;
pub mod ports;
pub mod receive_buffer;
pub mod send_lock;

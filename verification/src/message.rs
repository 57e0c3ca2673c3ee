//! What travels over the link, what channels tell their multiplexer, and the
//! errors that channels and multiplexer report.

use crate::external::send_error_disconnected;
use futures::channel::mpsc;
use vstd::prelude::*;

verus! {

/// A message on the link between two multiplexers.
///
/// Every port is named by the number it has at the side that gets the message,
/// except for the `server_port` of `Opened` and the `client_port` of `Open`,
/// by which the sender introduces its own port.
pub enum MultiplexMsg<Content> {
    /// Open connection to service on specified client port.
    Open { service: u32, client_port: u32 },
    /// Connection to service refused, with the reason of the service if it gave one.
    Refused { client_port: u32, reason: Option<Content> },
    /// Connection opened.
    Opened { client_port: u32, server_port: u32 },
    /// Pause sending data on specified port.
    Pause { port: u32 },
    /// Resume sending data on specified port.
    Resume { port: u32 },
    /// No more data will be sent to specified remote port.
    Finish { port: u32 },
    /// Acknowledgement that Finish has been received for the specified remote port.
    FinishAck { port: u32 },
    /// Not interested in receiving any more data from specified remote port.
    Hangup { port: u32, graceful: bool },
    /// Data for specified port.
    Data { port: u32, content: Content },
}

/// A message from a local channel to its multiplexer.
pub enum ChannelMsg<Content> {
    /// Send message with content.
    SendMsg { remote_port: u32, content: Content },
    /// Sender has been dropped.
    SenderDropped { local_port: u32 },
    /// Receiver has been closed or dropped.
    ReceiverClosed { local_port: u32, gracefully: bool },
    /// Connection has been accepted.
    Accepted { local_port: u32 },
    /// Connection has been rejected.
    Rejected { local_port: u32, reason: Option<Content> },
    /// The channel receive buffer has reached the resume length from above.
    ReceiveBufferReachedResumeLength { local_port: u32 },
}

/// Why a multiplexer stopped.
#[derive(Debug, Clone)]
pub enum MultiplexRunError<TransportSinkError, TransportStreamError> {
    /// The link failed to take a message.
    SendError(TransportSinkError),
    /// The link failed to deliver a message.
    ReceiveError(TransportStreamError),
    /// The receiving side of the link is closed.
    ReceiverClosed,
    /// The other side broke the protocol.
    ProtocolError(String),
    /// A port was needed and too many are in use.
    PortsExhausted,
}

/// Why an item could not be sent into a channel.
#[derive(Debug, Clone, Copy, PartialEq, Eq, Structural)]
pub enum ChannelSendError {
    /// Other side closed receiving end of channel.
    Closed {
        /// True if other side still processes items sent up until now.
        gracefully: bool,
    },
    /// The multiplexer encountered an error or was terminated.
    MultiplexerError,
}

impl ChannelSendError {
    /// What the failure to reach the multiplexer means to a channel. Such a
    /// failure is always a disconnect: a channel waits until there is room.
    pub fn from_send_error(err: mpsc::SendError) -> (error: ChannelSendError)
        requires
            send_error_disconnected(err),
        ensures
            error == ChannelSendError::MultiplexerError,
    {
        ChannelSendError::MultiplexerError
    }

    /// As `from_send_error`, for a failure of unknown kind. `None` where the
    /// failure is no disconnect.
    pub fn checked_from_send_error(err: mpsc::SendError) -> (error: Option<ChannelSendError>)
        ensures
            error == (if send_error_disconnected(err) {
                Some(ChannelSendError::MultiplexerError)
            } else {
                None
            }),
    {
        if err.is_disconnected() {
            Some(ChannelSendError::from_send_error(err))
        } else {
            None
        }
    }
}

/// Why an item could not be received from a channel.
#[derive(Debug, Clone, Copy, PartialEq, Eq, Structural)]
pub enum ChannelReceiveError {
    /// The multiplexer encountered an error or was terminated.
    MultiplexerError,
}

} // verus!

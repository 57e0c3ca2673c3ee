//! What can go wrong with a channel, and how one error becomes another.

use super::message::ChannelId;
use crate::external::send_error_disconnected;
use futures::channel::mpsc;
use vstd::prelude::*;
use vstd::std_specs::convert::{FromSpec, FromSpecImpl};

verus! {

/// Errors of the multiplexor itself.
#[derive(Debug)]
pub enum LowerMultiplexorError {
    ChannelAlreadyInUse(ChannelId),
    ConnectionClosed,
}

/// Errors of an open channel.
#[derive(Debug)]
pub enum MultiplexorError<SerErr, DeserErr> {
    ChannelAlreadyInUse(ChannelId),
    ConnectionClosed,
    ConnectionRefused(ChannelId),
    SerializationError(SerErr),
    DeserializationError(DeserErr),
    UnexpectedResponse,
}

/// Errors when a channel is registered.
#[derive(Debug)]
pub enum MultiplexorChannelRegisterError {
    ChannelAlreadyInUse(ChannelId),
    TransportClosed,
}

/// Errors when a channel is opened.
#[derive(Debug)]
pub enum MultiplexorConnectError<SerErr, DeserErr> {
    ChannelAlreadyInUse(ChannelId),
    ConnectionRefused(ChannelId),
    TransportClosed,
    UnexpectedResponse,
    SerializationError(SerErr),
    DeserializationError(DeserErr),
}

/// Errors when an item is sent.
#[derive(Debug)]
pub enum MultiplexorSendError<SerErr> {
    TransportClosed,
    SerializationError(SerErr),
}

impl<SerErr, DeserErr> From<LowerMultiplexorError> for MultiplexorError<SerErr, DeserErr> {
    fn from(err: LowerMultiplexorError) -> (error: Self) {
        match err {
            LowerMultiplexorError::ChannelAlreadyInUse(id) => Self::ChannelAlreadyInUse(id),
            LowerMultiplexorError::ConnectionClosed => Self::ConnectionClosed,
        }
    }
}

impl<SerErr, DeserErr> FromSpecImpl<LowerMultiplexorError> for MultiplexorError<SerErr, DeserErr> {
    open spec fn obeys_from_spec() -> bool {
        true
    }

    open spec fn from_spec(err: LowerMultiplexorError) -> Self {
        match err {
            LowerMultiplexorError::ChannelAlreadyInUse(id) => Self::ChannelAlreadyInUse(id),
            LowerMultiplexorError::ConnectionClosed => Self::ConnectionClosed,
        }
    }
}

impl<SerErr, DeserErr> From<MultiplexorChannelRegisterError> for MultiplexorConnectError<
    SerErr,
    DeserErr,
> {
    fn from(err: MultiplexorChannelRegisterError) -> (error: Self) {
        match err {
            MultiplexorChannelRegisterError::ChannelAlreadyInUse(id) => Self::ChannelAlreadyInUse(
                id,
            ),
            MultiplexorChannelRegisterError::TransportClosed => Self::TransportClosed,
        }
    }
}

impl<SerErr, DeserErr> FromSpecImpl<MultiplexorChannelRegisterError> for MultiplexorConnectError<
    SerErr,
    DeserErr,
> {
    open spec fn obeys_from_spec() -> bool {
        true
    }

    open spec fn from_spec(err: MultiplexorChannelRegisterError) -> Self {
        match err {
            MultiplexorChannelRegisterError::ChannelAlreadyInUse(id) => Self::ChannelAlreadyInUse(
                id,
            ),
            MultiplexorChannelRegisterError::TransportClosed => Self::TransportClosed,
        }
    }
}

impl<SerErr, DeserErr> From<MultiplexorSendError<SerErr>> for MultiplexorConnectError<
    SerErr,
    DeserErr,
> {
    fn from(err: MultiplexorSendError<SerErr>) -> (error: Self) {
        match err {
            MultiplexorSendError::TransportClosed => Self::TransportClosed,
            MultiplexorSendError::SerializationError(err) => Self::SerializationError(err),
        }
    }
}

impl<SerErr, DeserErr> FromSpecImpl<MultiplexorSendError<SerErr>> for MultiplexorConnectError<
    SerErr,
    DeserErr,
> {
    open spec fn obeys_from_spec() -> bool {
        true
    }

    open spec fn from_spec(err: MultiplexorSendError<SerErr>) -> Self {
        match err {
            MultiplexorSendError::TransportClosed => Self::TransportClosed,
            MultiplexorSendError::SerializationError(err) => Self::SerializationError(err),
        }
    }
}

impl<SerErr> MultiplexorSendError<SerErr> {
    /// What the failure of the transmit queue to take a pack means to a channel.
    /// Such a failure is always a disconnect: a channel waits until there is room.
    pub fn from_send_error(err: mpsc::SendError) -> (error: MultiplexorSendError<SerErr>)
        requires
            send_error_disconnected(err),
        ensures
            error == MultiplexorSendError::<SerErr>::TransportClosed,
    {
        MultiplexorSendError::TransportClosed
    }

    /// As `from_send_error`, for a failure of unknown kind. `None` where the
    /// transmit queue was full.
    pub fn checked_from_send_error(err: mpsc::SendError) -> (error: Option<
        MultiplexorSendError<SerErr>,
    >)
        ensures
            error == (if send_error_disconnected(err) {
                Some(MultiplexorSendError::<SerErr>::TransportClosed)
            } else {
                None
            }),
    {
        if err.is_full() {
            None
        } else {
            Some(MultiplexorSendError::from_send_error(err))
        }
    }
}

/// An error keeps its meaning when it becomes another: what is in use stays in use,
/// under the same identifier, what is closed stays closed, and the error of a
/// serializer stays what it is.
pub proof fn law_errors_keep_their_meaning<SerErr, DeserErr>(id: ChannelId, err: SerErr)
    ensures
        <MultiplexorError<SerErr, DeserErr> as FromSpec<LowerMultiplexorError>>::from_spec(
            LowerMultiplexorError::ChannelAlreadyInUse(id),
        ) == MultiplexorError::<SerErr, DeserErr>::ChannelAlreadyInUse(id),
        <MultiplexorError<SerErr, DeserErr> as FromSpec<LowerMultiplexorError>>::from_spec(
            LowerMultiplexorError::ConnectionClosed,
        ) == MultiplexorError::<SerErr, DeserErr>::ConnectionClosed,
        <MultiplexorConnectError<SerErr, DeserErr> as FromSpec<
            MultiplexorChannelRegisterError,
        >>::from_spec(MultiplexorChannelRegisterError::ChannelAlreadyInUse(id))
            == MultiplexorConnectError::<SerErr, DeserErr>::ChannelAlreadyInUse(id),
        <MultiplexorConnectError<SerErr, DeserErr> as FromSpec<
            MultiplexorChannelRegisterError,
        >>::from_spec(MultiplexorChannelRegisterError::TransportClosed)
            == MultiplexorConnectError::<SerErr, DeserErr>::TransportClosed,
        <MultiplexorConnectError<SerErr, DeserErr> as FromSpec<
            MultiplexorSendError<SerErr>,
        >>::from_spec(MultiplexorSendError::SerializationError(err)) == MultiplexorConnectError::<
            SerErr,
            DeserErr,
        >::SerializationError(err),
        <MultiplexorConnectError<SerErr, DeserErr> as FromSpec<
            MultiplexorSendError<SerErr>,
        >>::from_spec(MultiplexorSendError::TransportClosed) == MultiplexorConnectError::<
            SerErr,
            DeserErr,
        >::TransportClosed,
{
}

} // verus!

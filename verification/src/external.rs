//! What is trusted of the outside crates: declared types and assumed contracts.

use futures::channel::mpsc;
use futures::channel::oneshot;
use rand::Rng;
use vstd::prelude::*;

verus! {

/// Declares `futures::channel::oneshot::Sender`.
#[verifier::external_type_specification]
#[verifier::external_body]
#[verifier::reject_recursive_types(T)]
pub struct ExOneshotSender<T>(oneshot::Sender<T>);

/// Declares `futures::channel::oneshot::Receiver`.
#[verifier::external_type_specification]
#[verifier::external_body]
#[verifier::reject_recursive_types(T)]
pub struct ExOneshotReceiver<T>(oneshot::Receiver<T>);

/// Declares `futures::channel::oneshot::Canceled`, the error that a
/// `oneshot::Receiver` resolves to.
#[verifier::external_type_specification]
#[verifier::external_body]
pub struct ExCanceled(oneshot::Canceled);

/// Declares `futures::channel::mpsc::SendError`.
#[verifier::external_type_specification]
#[verifier::external_body]
pub struct ExSendError(mpsc::SendError);

/// Declares `rand::rngs::ThreadRng`.
#[verifier::external_type_specification]
#[verifier::external_body]
pub struct ExThreadRng(rand::rngs::ThreadRng);

/// `tx` and `rx` are the two halves that one call of `oneshot::channel`
/// returned, so completing or dropping `tx` wakes whoever awaits `rx`.
pub uninterp spec fn wakes(tx: oneshot::Sender<()>, rx: oneshot::Receiver<()>) -> bool;

/// Calls `futures::channel::oneshot::channel`. Claims that the two values
/// returned are the two halves of one channel.
#[verifier::external_body]
pub(crate) fn wake_channel() -> (halves: (oneshot::Sender<()>, oneshot::Receiver<()>))
    ensures
        wakes(halves.0, halves.1),
{
    oneshot::channel()
}

/// `futures::channel::oneshot::Sender::send` hands the value to the other half.
/// Claims that where that half is gone, the value itself comes back. Whether it
/// is gone depends on another task, and nothing is said of that.
pub assume_specification<T>[ oneshot::Sender::<T>::send ](tx: oneshot::Sender<T>, t: T) -> (sent:
    Result<(), T>)
    ensures
        sent matches Err(back) ==> back == t,
;

/// What `mpsc::SendError::is_disconnected` answers of `err`.
pub uninterp spec fn send_error_disconnected(err: mpsc::SendError) -> bool;

/// `futures::channel::mpsc::SendError::is_disconnected`. The answer depends on
/// the error alone.
pub assume_specification[ mpsc::SendError::is_disconnected ](err: &mpsc::SendError) -> (answer: bool)
    ensures
        answer == send_error_disconnected(*err),
;

/// `futures::channel::mpsc::SendError::is_full`. A send error has one of two
/// kinds, so it is "full" exactly where it is not "disconnected".
pub assume_specification[ mpsc::SendError::is_full ](err: &mpsc::SendError) -> (answer: bool)
    ensures
        answer == !send_error_disconnected(*err),
;

/// `rand::thread_rng`: a handle to the generator of the running thread. Nothing
/// is claimed of it.
pub assume_specification[ rand::thread_rng ]() -> rand::rngs::ThreadRng;

/// Calls `rand::Rng::gen` for a `u32`. Any number may come out, so nothing is
/// claimed of it.
#[verifier::external_body]
pub(crate) fn draw(rng: &mut rand::rngs::ThreadRng) -> (number: u32) {
    rng.gen()
}

} // verus!

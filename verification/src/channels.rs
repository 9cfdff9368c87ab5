//! The tokio channels that connect the two halves of a connection, and the few calls
//! made on them. What these calls return depends on the other half (whether it is still
//! there, what it has sent meanwhile), so of their results only what holds either way is
//! claimed: an answer `send` could not hand over comes back unchanged.
use vstd::prelude::*;

use crate::error::Error;

verus! {

#[verifier::external_type_specification]
#[verifier::external_body]
#[verifier::reject_recursive_types(V)]
pub struct ExOneshotSender<V>(tokio::sync::oneshot::Sender<V>);

#[verifier::external_type_specification]
#[verifier::external_body]
#[verifier::reject_recursive_types(V)]
pub struct ExOneshotReceiver<V>(tokio::sync::oneshot::Receiver<V>);

/// `tokio::sync::oneshot::error::RecvError`: the error of awaiting a `Receiver`, which
/// Verus meets in `Receiver`'s `Future` impl and needs declared.
#[verifier::external_type_specification]
#[verifier::external_body]
pub struct ExOneshotRecvError(tokio::sync::oneshot::error::RecvError);

#[verifier::external_type_specification]
#[verifier::external_body]
#[verifier::reject_recursive_types(V)]
pub struct ExUnboundedSender<V>(tokio::sync::mpsc::UnboundedSender<V>);

#[verifier::external_type_specification]
#[verifier::external_body]
#[verifier::reject_recursive_types(V)]
pub struct ExUnboundedReceiver<V>(tokio::sync::mpsc::UnboundedReceiver<V>);

/// `tokio::sync::oneshot::channel`: a fresh single-value channel.
#[verifier::external_body]
pub(crate) fn oneshot_channel<V>() -> (tokio::sync::oneshot::Sender<V>, tokio::sync::oneshot::Receiver<V>) {
    tokio::sync::oneshot::channel()
}

/// `tokio::sync::oneshot::Sender::is_closed`: whether the receiving end is gone. It is
/// closed by the other task at any moment, so the result is not tied to anything here.
#[verifier::external_body]
pub(crate) fn oneshot_is_closed<V>(sender: &tokio::sync::oneshot::Sender<V>) -> bool {
    sender.is_closed()
}

/// `tokio::sync::oneshot::Sender::send` of an answer: hands `Ok(value)` to the receiving
/// end, if it is still there; an answer that finds no receiver comes back as `Err`,
/// unchanged. Whether the receiving end is there is up to the other task, so which of the
/// two happens is not claimed, and what the receiver gets on success is out of the proofs'
/// sight: it is `Ok(value)` because that is the only value this call sends.
#[verifier::external_body]
pub(crate) fn oneshot_send<V>(sender: tokio::sync::oneshot::Sender<Result<V, Error>>, value: V) -> (r: Result<(), Result<V, Error>>)
    ensures
        r matches Err(back) ==> back is Ok && back->Ok_0 == value,
{
    sender.send(Ok(value))
}

/// `tokio::sync::mpsc::unbounded_channel`: a fresh unbounded queue between two tasks.
#[verifier::external_body]
pub(crate) fn unbounded_channel<V>() -> (tokio::sync::mpsc::UnboundedSender<V>, tokio::sync::mpsc::UnboundedReceiver<V>) {
    tokio::sync::mpsc::unbounded_channel()
}

/// `tokio::sync::mpsc::UnboundedSender::send`, reporting whether the value was queued
/// (`false` once the receiving end is gone).
#[verifier::external_body]
pub(crate) fn unbounded_send<V>(sender: &tokio::sync::mpsc::UnboundedSender<V>, value: V) -> bool {
    sender.send(value).is_ok()
}

/// `tokio::sync::mpsc::UnboundedReceiver::len`: how many values are queued right now.
#[verifier::external_body]
pub(crate) fn unbounded_len<V>(receiver: &tokio::sync::mpsc::UnboundedReceiver<V>) -> usize {
    receiver.len()
}

/// `tokio::sync::mpsc::UnboundedReceiver::try_recv`: the next queued value, if there is one.
#[verifier::external_body]
pub(crate) fn unbounded_try_recv<V>(receiver: &mut tokio::sync::mpsc::UnboundedReceiver<V>) -> Option<V> {
    receiver.try_recv().ok()
}

} // verus!

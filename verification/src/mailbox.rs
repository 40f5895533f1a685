use crossbeam_channel::{Receiver, Sender};
use vstd::prelude::*;

verus! {

/// The producer end of a mailbox, `crossbeam_channel::Sender`. Opaque here.
#[verifier::external_type_specification]
#[verifier::external_body]
#[verifier::reject_recursive_types(T)]
pub struct ExSender<T>(Sender<T>);

/// The consumer end of a mailbox, `crossbeam_channel::Receiver`. Opaque here.
#[verifier::external_type_specification]
#[verifier::external_body]
#[verifier::reject_recursive_types(T)]
pub struct ExReceiver<T>(Receiver<T>);

/// Calls `crossbeam_channel::unbounded`, which makes the two ends of a new
/// channel without a capacity limit. Nothing is claimed of the pair.
#[verifier::external_body]
pub(crate) fn open<M>() -> (ends: (Sender<M>, Receiver<M>)) {
    crossbeam_channel::unbounded()
}

/// Calls `Sender::send`. On an unbounded channel it does not block; it fails
/// only when every receiver is gone, and that failure is dropped here, so a
/// post to a dead mailbox does nothing. Nothing is claimed of the channel.
#[verifier::external_body]
pub(crate) fn post<M>(postman: &Sender<M>, msg: M) {
    let _ = postman.send(msg);
}

/// Calls `Receiver::try_recv`, which does not block. The result is the next
/// message, or `None` where the channel is empty or disconnected. Other
/// threads may post at any time, so nothing is claimed of which it is.
#[verifier::external_body]
pub(crate) fn take<M>(mailbox: &Receiver<M>) -> (delivery: Option<M>) {
    mailbox.try_recv().ok()
}

/// Calls `Sender::clone`, which makes another producer for the same channel.
/// Nothing is claimed of the copy.
#[verifier::external_body]
pub(crate) fn share<M>(postman: &Sender<M>) -> (copy: Sender<M>) {
    postman.clone()
}

} // verus!

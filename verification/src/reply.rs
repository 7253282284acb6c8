//! The single-use reply acceptor handed in with each block request. It wraps
//! the sending half of a oneshot channel: the caller keeps the receiving half
//! and gets the request's result through it, at most once.

use vstd::prelude::*;

use crate::types::BlockData;

verus! {

/// Result payload routed back to a caller: the requested blocks, or the
/// network layer's failure, forwarded verbatim.
pub type ReplyPayload = Result<Vec<BlockData>, ()>;

#[verifier::external_type_specification]
#[verifier::external_body]
#[verifier::reject_recursive_types(T)]
pub struct ExOneshotSender<T>(futures::channel::oneshot::Sender<T>);

/// Relies on futures::channel::oneshot::Sender::send: it consumes the sender,
/// and either enqueues the value for the receiver (`Ok`) or, if the receiving
/// half was already dropped, hands the value back (`Err`). Which of the two
/// happens depends on the receiver, so nothing more is promised.
pub assume_specification<T>[ futures::channel::oneshot::Sender::<T>::send ](
    s: futures::channel::oneshot::Sender<T>,
    t: T,
) -> (r: Result<(), T>)
    ensures
        r matches Err(v) ==> v == t,
;

/// Single-use completion callback for one block request. Consumed when the
/// request's result is delivered; if the submitting caller has abandoned
/// interest, delivery is a silent no-op.
pub struct ReplyAcceptor {
    sender: futures::channel::oneshot::Sender<ReplyPayload>,
}

impl ReplyAcceptor {
    /// Wraps the sending half of the caller's oneshot channel.
    pub fn new(sender: futures::channel::oneshot::Sender<ReplyPayload>) -> ReplyAcceptor {
        ReplyAcceptor { sender }
    }

    /// Hands the request's result to the caller. Returns whether the caller
    /// was still listening; a dropped receiving half is not an error, so no
    /// more than that can be said of the outcome.
    pub fn deliver(self, result: ReplyPayload) -> bool {
        match self.sender.send(result) {
            Ok(()) => true,
            Err(_) => false,
        }
    }
}

} // verus!

//! Sending the replies of a batch to the clients that wait for them, each
//! over its one-shot channel.

use tokio::sync::oneshot::Sender;
use vstd::prelude::*;

use crate::batch::{Delivery, EngineError};

verus! {

/// `tokio::sync::oneshot::Sender`, the sending end of a one-shot channel.
/// Nothing is known of what is inside one: the engine only carries it from
/// the request to the reply.
#[verifier::external_type_specification]
#[verifier::external_body]
#[verifier::reject_recursive_types(T)]
pub struct ExSender<T>(Sender<T>);

/// `tokio::sync::oneshot::Sender::send`: hands `reply` to the receiving end
/// of the channel and uses the channel up. It never waits. It returns
/// whether the receiving end was still there to take the reply; nothing is
/// claimed of which, as that is the client's doing.
#[verifier::external_body]
fn send<V>(tx: Sender<Result<Vec<V>, EngineError>>, reply: Result<Vec<V>, EngineError>) -> (taken:
    bool) {
    tx.send(reply).is_ok()
}

/// Sends every reply on its handle, in order, each exactly once. A reply
/// whose client is gone is dropped, and the next one is sent all the same.
///
/// Returns, for each reply, whether its client was there to take it.
pub fn deliver<V>(deliveries: Vec<Delivery<Sender<Result<Vec<V>, EngineError>>, V>>) -> (taken:
    Vec<bool>)
    ensures
        taken.len() == deliveries.len(),
{
    let mut taken: Vec<bool> = Vec::new();
    for delivery in it: deliveries
        invariant
            taken.len() == it.index(),
            it.seq() == deliveries@,
    {
        let Delivery { tx, reply } = delivery;
        taken.push(send(tx, reply));
    }
    taken
}

} // verus!

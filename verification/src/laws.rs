use vstd::prelude::*;

use crate::errors::NodeError;
use crate::handle::NodeHandle;
use crate::wire::{Event, PublicKey};

verus! {

// Laws of the event-acknowledgement protocol. Retrieval is a
// non-consuming read: however many times the head event is asked for, the
// same event comes back, until `event_handled` acknowledges it; only then
// does the queue advance, by exactly one slot (see the contract of
// `NodeHandle::event_handled`).

/// Any two results the non-blocking peek can return on one and the same
/// handle are equal: reading the head event does not consume it, so N
/// calls without an intervening acknowledgement see the same event N
/// times.
pub proof fn lemma_next_event_idempotent(h: &NodeHandle, r1: Option<Event>, r2: Option<Event>)
    requires
        call_ensures(NodeHandle::next_event, (h,), r1),
        call_ensures(NodeHandle::next_event, (h,), r2),
    ensures
        r1 == r2,
{
}

/// The blocking wait returns exactly the event the non-blocking peek
/// shows: the two are one read over one underlying queue slot.
pub proof fn lemma_wait_matches_peek(h: &NodeHandle, waited: Event, peeked: Option<Event>)
    requires
        call_ensures(NodeHandle::wait_until_next_event, (h,), waited),
        call_ensures(NodeHandle::next_event, (h,), peeked),
    ensures
        peeked == Some(waited),
{
}

/// After an acknowledgement the peek moves on: on the handle that
/// `event_handled` leaves behind (its contract drops exactly the head),
/// the peek shows the event that was second in line, or nothing.
pub proof fn lemma_acknowledgement_advances_queue(pre: NodeHandle, post: NodeHandle)
    requires
        pre.events@.len() > 0,
        post.events@ == pre.events@.drop_first(),
    ensures
        post.spec_next_event() == (if pre.events@.len() > 1 {
            Some(pre.events@[1])
        } else {
            None::<Event>
        }),
{
}

/// A signature the node produced over a message verifies against the
/// node's own id and the same message.
pub proof fn lemma_own_signature_verifies(
    h: &NodeHandle,
    msg: Vec<u8>,
    msg2: Vec<u8>,
    sig: String,
    key: PublicKey,
    v: Result<bool, NodeError>,
)
    requires
        call_ensures(NodeHandle::sign_message, (h, msg), Ok(sig)),
        call_ensures(NodeHandle::node_id, (h,), Ok(key)),
        msg2@ == msg@,
        call_ensures(NodeHandle::verify_signature, (h, msg2, sig, key), v),
    ensures
        v == Ok::<bool, NodeError>(true),
{
}

} // verus!

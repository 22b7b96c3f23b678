//! The routing of answers to the callers that wait for them.

use vstd::prelude::*;
use std::collections::HashSet;
use crate::client::envelope::Envelope;

verus! {

broadcast use vstd::std_specs::hash::group_hash_axioms;

/// The requests that wait for an answer, by the identifier of the message
/// that carried them. Each identifier waits at most once.
#[derive(Debug)]
pub struct Router {
    pending: HashSet<i64>,
}

/// Where an answer goes.
#[derive(Debug, PartialEq, Eq)]
pub enum Delivery {
    /// To the caller that waits on the request `msg_id`.
    Deliver { msg_id: i64, body: Vec<u8> },
    /// Nowhere: nobody waits for it.
    Discard,
}

impl Router {
    /// The router is in order. It always is: the name is kept for callers
    /// that ask.
    pub closed spec fn wf(self) -> bool {
        true
    }

    /// The identifiers that wait.
    pub closed spec fn waiting(self) -> Set<i64> {
        self.pending@
    }

    /// A router on which nobody waits.
    pub fn new() -> (r: Self)
        ensures
            r.wf(),
            r.waiting() == Set::<i64>::empty(),
    {
        Router { pending: HashSet::new() }
    }

    /// Whether a caller waits on `msg_id`.
    pub fn is_waiting(&self, msg_id: i64) -> (w: bool)
        ensures
            w == self.waiting().contains(msg_id),
    {
        self.pending.contains(&msg_id)
    }

    /// Lets a caller wait on `msg_id`. Says whether it waits now; it does
    /// not where another caller waits on that identifier already.
    pub fn register(&mut self, msg_id: i64) -> (added: bool)
        ensures
            final(self).wf(),
            added == !old(self).waiting().contains(msg_id),
            final(self).waiting() == old(self).waiting().insert(msg_id),
    {
        self.pending.insert(msg_id)
    }

    /// Stops waiting on `msg_id`, as when its caller has gone. Says
    /// whether a caller waited.
    pub fn cancel(&mut self, msg_id: i64) -> (waited: bool)
        ensures
            final(self).wf(),
            waited == old(self).waiting().contains(msg_id),
            final(self).waiting() == old(self).waiting().remove(msg_id),
    {
        let waited = self.pending.remove(&msg_id);
        assert(self.pending@ =~= old(self).pending@.remove(msg_id));
        waited
    }

    /// Routes the answer to the request `req_msg_id`: to its caller if one
    /// waits, who then waits no longer; nowhere otherwise. No other caller is
    /// touched.
    pub fn route(&mut self, req_msg_id: i64, body: Vec<u8>) -> (d: Delivery)
        ensures
            final(self).wf(),
            final(self).waiting() == old(self).waiting().remove(req_msg_id),
            old(self).waiting().contains(req_msg_id) ==> d == (Delivery::Deliver {
                msg_id: req_msg_id,
                body,
            }),
            !old(self).waiting().contains(req_msg_id) ==> d == Delivery::Discard,
    {
        if self.cancel(req_msg_id) {
            Delivery::Deliver { msg_id: req_msg_id, body }
        } else {
            Delivery::Discard
        }
    }

    /// Number of callers that wait.
    pub fn len(&self) -> (n: usize)
        ensures
            n == self.waiting().len(),
    {
        self.pending.len()
    }
}

} // verus!

//! The table of requests in flight.

use vstd::prelude::*;
use std::collections::HashMap;
use crate::remote::actor::message::{RemoteRequest, RequestId};

verus! {

broadcast use vstd::std_specs::hash::group_hash_axioms;

/// The requests sent to other nodes that still wait for an answer.
pub struct RemoteHandler {
    requests: HashMap<RequestId, RemoteRequest>,
}

impl RemoteHandler {
    /// The waiting requests, by identifier.
    pub closed spec fn view(&self) -> Map<RequestId, RemoteRequest> {
        self.requests@
    }

    pub fn new() -> (handler: Self)
        ensures
            handler@ == Map::<RequestId, RemoteRequest>::empty(),
    {
        RemoteHandler { requests: HashMap::new() }
    }

    /// Files `request` under `id`, in place of an earlier request with the
    /// same identifier.
    pub fn push_request(&mut self, id: RequestId, request: RemoteRequest)
        ensures
            final(self)@ == old(self)@.insert(id, request),
    {
        self.requests.insert(id, request);
    }

    /// Takes out the request filed under `id`. An identifier that was never
    /// pushed, or was popped before, gives nothing.
    pub fn pop_request(&mut self, id: RequestId) -> (request: Option<RemoteRequest>)
        ensures
            final(self)@ == old(self)@.remove(id),
            request == (if old(self)@.contains_key(id) {
                Some(old(self)@[id])
            } else {
                None::<RemoteRequest>
            }),
    {
        self.requests.remove(&id)
    }

    /// The number of requests in flight.
    pub fn inflight_count(&self) -> (n: usize)
        ensures
            n == self@.len(),
    {
        self.requests.len()
    }
}

/// A request is answered at most once: once `id` has been popped, popping
/// it again gives nothing, whatever was pushed or popped under other
/// identifiers in between.
pub proof fn lemma_popped_once(
    table: Map<RequestId, RemoteRequest>,
    id: RequestId,
    other: RequestId,
    request: RemoteRequest,
)
    requires
        other != id,
    ensures
        !table.remove(id).contains_key(id),
        !table.remove(id).insert(other, request).contains_key(id),
        !table.remove(id).remove(other).contains_key(id),
{
}

/// The answer reaches the request it belongs to: what is popped under `id`
/// is what was last pushed under `id`, whatever was pushed or popped under
/// other identifiers in between.
pub proof fn lemma_pop_matches_push(
    table: Map<RequestId, RemoteRequest>,
    id: RequestId,
    request: RemoteRequest,
    other: RequestId,
    other_request: RemoteRequest,
)
    requires
        other != id,
    ensures
        table.insert(id, request)[id] == request,
        table.insert(id, request).insert(other, other_request)[id] == request,
        table.insert(id, request).remove(other).contains_key(id),
        table.insert(id, request).remove(other)[id] == request,
{
}

} // verus!

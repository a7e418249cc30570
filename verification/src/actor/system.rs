//! What an actor knows of the system that hosts it.

use vstd::prelude::*;

verus! {

/// The root of a node's actors: hands out context identifiers and records
/// whether the system has been shut down and whether it is part of a cluster.
#[derive(Debug, Clone, Copy, PartialEq, Eq, Structural)]
pub struct ActorSystem {
    pub system_id: u64,
    pub next_context: u64,
    pub terminated: bool,
    pub remote: bool,
}

impl ActorSystem {
    /// A running, local-only system whose first context gets identifier 1.
    pub fn new(system_id: u64) -> (system: ActorSystem)
        ensures
            system == (ActorSystem { system_id, next_context: 1, terminated: false, remote: false }),
    {
        ActorSystem { system_id, next_context: 1, terminated: false, remote: false }
    }

    /// Hands out the next context identifier. Identifiers grow by one with
    /// each call and wrap around after `u64::MAX`.
    pub fn next_context_id(&mut self) -> (id: u64)
        ensures
            id == old(self).next_context,
            *final(self) == (ActorSystem {
                next_context: if old(self).next_context == u64::MAX {
                    0
                } else {
                    (old(self).next_context + 1) as u64
                },
                ..*old(self)
            }),
    {
        let id = self.next_context;
        self.next_context = id.wrapping_add(1);
        id
    }

    pub fn is_terminated(&self) -> (t: bool)
        ensures
            t == self.terminated,
    {
        self.terminated
    }

    pub fn is_remote(&self) -> (r: bool)
        ensures
            r == self.remote,
    {
        self.remote
    }

    /// Marks the system as shut down.
    pub fn shutdown(&mut self)
        ensures
            *final(self) == (ActorSystem { terminated: true, ..*old(self) }),
    {
        self.terminated = true;
    }

    /// Marks the system as part of a cluster.
    pub fn set_remote(&mut self)
        ensures
            *final(self) == (ActorSystem { remote: true, ..*old(self) }),
    {
        self.remote = true;
    }
}

} // verus!

//! The outbound connections of a node, one client actor per peer.

use vstd::prelude::*;
use std::collections::HashMap;
use crate::actor::refs::LocalActorRef;
use crate::remote::cluster::node::NodeId;

verus! {

broadcast use vstd::std_specs::hash::group_hash_axioms;

/// Bytes to be written by a client on its connection.
#[derive(Debug, Clone, PartialEq, Eq)]
pub struct Write(pub Vec<u8>);

/// The client actors, by the node each is connected to.
pub struct RemoteClientRegistry {
    clients: HashMap<NodeId, LocalActorRef>,
}

impl RemoteClientRegistry {
    pub closed spec fn view(&self) -> Map<NodeId, LocalActorRef> {
        self.clients@
    }

    pub fn new() -> (registry: Self)
        ensures
            registry@ == Map::<NodeId, LocalActorRef>::empty(),
    {
        RemoteClientRegistry { clients: HashMap::new() }
    }

    /// Makes `client` the client for `node_id`.
    pub fn add_client(&mut self, node_id: NodeId, client: LocalActorRef)
        ensures
            final(self)@ == old(self)@.insert(node_id, client),
    {
        self.clients.insert(node_id, client);
    }

    /// Forgets the client for `node_id`.
    pub fn remove_client(&mut self, node_id: NodeId)
        ensures
            final(self)@ == old(self)@.remove(node_id),
    {
        self.clients.remove(&node_id);
    }

    /// Where `message` for the node `client_id` goes: to the client of that
    /// node, to be written as it is. Without such a client the message is
    /// dropped.
    pub fn client_write(&self, client_id: NodeId, message: Vec<u8>) -> (routed: Option<
        (LocalActorRef, Write),
    >)
        ensures
            routed == (if self@.contains_key(client_id) {
                Some((self@[client_id], Write(message)))
            } else {
                None::<(LocalActorRef, Write)>
            }),
    {
        match self.clients.get(&client_id) {
            Some(client) => Some((client.duplicate(), Write(message))),
            None => None,
        }
    }
}

} // verus!

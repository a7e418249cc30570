//! Actor handles and the errors that sending through them can give.

use vstd::prelude::*;
use crate::actor::table::ActorId;

verus! {

/// Why a message could not be delivered or answered.
#[derive(Debug, Clone, Copy, PartialEq, Eq, Structural)]
pub enum ActorRefErr {
    /// The target's mailbox is closed, the peer cannot be reached, or the
    /// request timed out.
    ActorUnavailable,
    /// The runtime type tag of a handle does not match the requested type.
    InvalidRef,
    /// The handler dropped the reply sink without answering.
    ResultSendFailed,
    /// The caller dropped the reply sink before the reply arrived.
    ResultChannelClosed,
    /// A message or its result could not be put on the wire.
    SerializationErr,
    /// Bytes from the wire could not be read as a message or a result.
    DeserializationErr,
    /// The operation cannot be carried out on this kind of handle.
    NotSupported,
}

/// A handle to a local actor of a known type.
#[derive(Debug, Clone, PartialEq, Eq)]
pub struct LocalActorRef {
    pub id: ActorId,
    pub actor_type: String,
}

/// A handle to an actor with its type erased: the identifier and the runtime
/// type tag. Supervision tables and the scheduler hold these.
#[derive(Debug, Clone, PartialEq, Eq)]
pub struct BoxedActorRef {
    pub actor_id: ActorId,
    pub actor_type: String,
}

impl LocalActorRef {
    pub fn new(id: ActorId, actor_type: String) -> (r: Self)
        ensures
            r.id == id,
            r.actor_type == actor_type,
    {
        LocalActorRef { id, actor_type }
    }

    /// Erases the type, keeping the identifier and the type tag.
    pub fn into_boxed(self) -> (boxed: BoxedActorRef)
        ensures
            boxed.actor_id == self.id,
            boxed.actor_type == self.actor_type,
    {
        BoxedActorRef { actor_id: self.id, actor_type: self.actor_type }
    }

    pub fn duplicate(&self) -> (r: Self)
        ensures
            r == *self,
    {
        LocalActorRef { id: self.id.clone(), actor_type: self.actor_type.clone() }
    }
}

impl BoxedActorRef {
    pub fn new(actor_id: ActorId, actor_type: String) -> (r: Self)
        ensures
            r.actor_id == actor_id,
            r.actor_type == actor_type,
    {
        BoxedActorRef { actor_id, actor_type }
    }

    pub fn actor_id(&self) -> (id: &ActorId)
        ensures
            *id == self.actor_id,
    {
        &self.actor_id
    }

    pub fn actor_type(&self) -> (tag: &String)
        ensures
            *tag == self.actor_type,
    {
        &self.actor_type
    }

    pub fn duplicate(&self) -> (r: Self)
        ensures
            r == *self,
    {
        BoxedActorRef { actor_id: self.actor_id.clone(), actor_type: self.actor_type.clone() }
    }

    /// What [`BoxedActorRef::downcast`] returns.
    pub open spec fn downcast_spec(&self, actor_type: Seq<char>) -> Result<
        LocalActorRef,
        ActorRefErr,
    > {
        if self.actor_type@ == actor_type {
            Ok(LocalActorRef { id: self.actor_id, actor_type: self.actor_type })
        } else {
            Err(ActorRefErr::InvalidRef)
        }
    }

    /// Recovers the typed handle. This succeeds exactly when `actor_type` is
    /// the tag the handle was erased with.
    pub fn downcast(&self, actor_type: &String) -> (r: Result<LocalActorRef, ActorRefErr>)
        ensures
            r == self.downcast_spec(actor_type@),
    {
        if self.actor_type == *actor_type {
            Ok(LocalActorRef { id: self.actor_id.clone(), actor_type: self.actor_type.clone() })
        } else {
            Err(ActorRefErr::InvalidRef)
        }
    }

    /// The typed handle, or nothing where the tag does not match.
    pub fn as_actor(&self, actor_type: &String) -> (r: Option<LocalActorRef>)
        ensures
            r == (match self.downcast_spec(actor_type@) {
                Ok(typed) => Some(typed),
                Err(_) => None::<LocalActorRef>,
            }),
    {
        match self.downcast(actor_type) {
            Ok(typed) => Some(typed),
            Err(_) => None,
        }
    }
}

/// A handle to an actor on another node: the node and the identifier the
/// actor has there.
#[derive(Debug, Clone, PartialEq, Eq)]
pub struct RemoteActorRef {
    pub id: ActorId,
    pub node_id: u64,
    pub actor_type: String,
}

/// A handle to an actor, wherever it lives.
#[derive(Debug, Clone, PartialEq, Eq)]
pub enum ActorRef {
    Local(LocalActorRef),
    Remote(RemoteActorRef),
}

impl ActorRef {
    /// The identifier of the target.
    pub open spec fn target(&self) -> Seq<char> {
        match self {
            ActorRef::Local(r) => r.id@,
            ActorRef::Remote(r) => r.id@,
        }
    }

    pub fn actor_id(&self) -> (id: &ActorId)
        ensures
            id@ == self.target(),
    {
        match self {
            ActorRef::Local(r) => &r.id,
            ActorRef::Remote(r) => &r.id,
        }
    }

    /// The node of a remote target; nothing for a local one.
    pub fn node_id(&self) -> (node: Option<u64>)
        ensures
            node == (match *self {
                ActorRef::Local(_) => None::<u64>,
                ActorRef::Remote(r) => Some(r.node_id),
            }),
    {
        match self {
            ActorRef::Local(_) => None,
            ActorRef::Remote(r) => Some(r.node_id),
        }
    }

    pub fn is_remote(&self) -> (remote: bool)
        ensures
            remote == (*self is Remote),
    {
        match self {
            ActorRef::Local(_) => false,
            ActorRef::Remote(_) => true,
        }
    }

    /// Whether both handles have the same target. This is what it means for
    /// two handles to be equal.
    pub fn same_target(&self, other: &ActorRef) -> (same: bool)
        ensures
            same == (self.target() == other.target()),
    {
        *self.actor_id() == *other.actor_id()
    }

    /// The local handle; `NotSupported` for a remote target.
    pub fn as_local(&self) -> (r: Result<LocalActorRef, ActorRefErr>)
        ensures
            r == (match *self {
                ActorRef::Local(local) => Ok::<LocalActorRef, ActorRefErr>(local),
                ActorRef::Remote(_) => Err::<LocalActorRef, ActorRefErr>(ActorRefErr::NotSupported),
            }),
    {
        match self {
            ActorRef::Local(local) => Ok(local.duplicate()),
            ActorRef::Remote(_) => Err(ActorRefErr::NotSupported),
        }
    }

    /// The remote handle; `NotSupported` for a local target.
    pub fn as_remote(&self) -> (r: Result<RemoteActorRef, ActorRefErr>)
        ensures
            r == (match *self {
                ActorRef::Local(_) => Err::<RemoteActorRef, ActorRefErr>(ActorRefErr::NotSupported),
                ActorRef::Remote(remote) => Ok::<RemoteActorRef, ActorRefErr>(remote),
            }),
    {
        match self {
            ActorRef::Local(_) => Err(ActorRefErr::NotSupported),
            ActorRef::Remote(remote) => Ok(
                RemoteActorRef {
                    id: remote.id.clone(),
                    node_id: remote.node_id,
                    actor_type: remote.actor_type.clone(),
                },
            ),
        }
    }
}

} // verus!

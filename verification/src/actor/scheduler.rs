//! The scheduler: the actors of a node that can be found by identifier.

use vstd::prelude::*;
use crate::actor::refs::{ActorRefErr, BoxedActorRef, LocalActorRef};
use crate::actor::table::{ActorId, IdTable};

verus! {

/// Asks the scheduler for the actor with an identifier.
#[derive(Debug, PartialEq, Eq)]
pub struct GetActor {
    pub id: ActorId,
}

impl GetActor {
    pub fn new(id: ActorId) -> (message: Self)
        ensures
            message.id == id,
    {
        GetActor { id }
    }
}

/// Asks the scheduler to forget the actor with an identifier.
#[derive(Debug, PartialEq, Eq)]
pub struct DeregisterActor(pub ActorId);

/// The actors under management, by identifier.
pub struct ActorScheduler {
    actors: IdTable<BoxedActorRef>,
}

impl ActorScheduler {
    pub closed spec fn wf(&self) -> bool {
        self.actors.wf()
    }

    pub closed spec fn view(&self) -> Map<Seq<char>, BoxedActorRef> {
        self.actors@
    }

    /// A scheduler without actors.
    pub fn new() -> (scheduler: Self)
        ensures
            scheduler.wf(),
            scheduler@ == Map::<Seq<char>, BoxedActorRef>::empty(),
    {
        ActorScheduler { actors: IdTable::new() }
    }

    /// Places `actor` under management, under its own identifier, and
    /// acknowledges.
    pub fn register(&mut self, actor: BoxedActorRef) -> (acknowledged: bool)
        requires
            old(self).wf(),
        ensures
            final(self).wf(),
            acknowledged,
            final(self)@ == old(self)@.insert(actor.actor_id@, actor),
    {
        let id = actor.actor_id.clone();
        let _ = self.actors.insert(id, actor);
        true
    }

    /// The actor `id` as an actor of type `actor_type`; nothing where no
    /// such actor is under management or its type is another.
    pub fn get(&self, message: &GetActor, actor_type: &String) -> (actor: Option<LocalActorRef>)
        requires
            self.wf(),
        ensures
            actor == (if self@.contains_key(message.id@) && self@[message.id@].actor_type@
                == actor_type@ {
                Some(
                    LocalActorRef {
                        id: self@[message.id@].actor_id,
                        actor_type: self@[message.id@].actor_type,
                    },
                )
            } else {
                None::<LocalActorRef>
            }),
    {
        match self.actors.get(&message.id) {
            Some(actor) => actor.as_actor(actor_type),
            None => None,
        }
    }

    /// Removes the actor named in `message`. Removing an actor that is not
    /// there changes nothing.
    pub fn deregister(&mut self, message: DeregisterActor)
        requires
            old(self).wf(),
        ensures
            final(self).wf(),
            final(self)@ == old(self)@.remove(message.0@),
    {
        let _ = self.actors.remove(&message.0);
    }

    /// The identifiers of the actors under management, each once.
    pub fn actor_ids(&self) -> (ids: Vec<ActorId>)
        requires
            self.wf(),
        ensures
            ids@.len() == self@.dom().len(),
            ids@.map_values(|id: ActorId| id@).no_duplicates(),
            forall|id: Seq<char>|
                ids@.map_values(|id: ActorId| id@).contains(id) <==> self@.contains_key(id),
    {
        self.actors.keys()
    }
}

/// An actor that was registered is found: right after `actor` has been
/// placed under management, a lookup of its identifier gives `actor`, and
/// after it has been removed the lookup gives nothing.
pub proof fn lemma_get_after_register(actors: Map<Seq<char>, BoxedActorRef>, actor: BoxedActorRef)
    ensures
        actors.insert(actor.actor_id@, actor).contains_key(actor.actor_id@),
        actors.insert(actor.actor_id@, actor)[actor.actor_id@] == actor,
        !actors.insert(actor.actor_id@, actor).remove(actor.actor_id@).contains_key(
            actor.actor_id@,
        ),
        actors.remove(actor.actor_id@).remove(actor.actor_id@) == actors.remove(actor.actor_id@),
{
    assert(actors.remove(actor.actor_id@).remove(actor.actor_id@) =~= actors.remove(
        actor.actor_id@,
    ));
}

/// What the caller of a registration sees: the handle once the scheduler
/// has acknowledged, and `ActorUnavailable` where it refused or never
/// answered.
pub fn new_tracked_actor(
    actor_ref: Result<LocalActorRef, ActorRefErr>,
    acknowledged: Option<bool>,
) -> (r: Result<LocalActorRef, ActorRefErr>)
    ensures
        r == (if acknowledged == Some(true) {
            actor_ref
        } else {
            Err::<LocalActorRef, ActorRefErr>(ActorRefErr::ActorUnavailable)
        }),
{
    match acknowledged {
        Some(true) => actor_ref,
        _ => Err(ActorRefErr::ActorUnavailable),
    }
}

/// What the caller of a lookup sees: the scheduler's answer, and nothing
/// where the scheduler could not be asked.
pub fn get_actor(answer: Result<Option<LocalActorRef>, ActorRefErr>) -> (actor: Option<
    LocalActorRef,
>)
    ensures
        actor == (match answer {
            Ok(a) => a,
            Err(_) => None::<LocalActorRef>,
        }),
{
    match answer {
        Ok(a) => a,
        Err(_) => None,
    }
}

} // verus!

//! The children an actor supervises.

use vstd::prelude::*;
use crate::actor::table::{ActorId, Entry, IdTable};
use crate::actor::refs::{BoxedActorRef, LocalActorRef};

verus! {

/// A [`Supervised`] as plain values.
pub struct SupervisedView {
    /// The identifier of the parent.
    pub parent_id: ActorId,
    /// The children, by identifier.
    pub children: Map<Seq<char>, BoxedActorRef>,
}

/// The live children of one parent, by identifier.
pub struct Supervised {
    actor_id: ActorId,
    children: IdTable<BoxedActorRef>,
}

impl Supervised {
    /// The table holds no identifier twice, and each child is filed under its
    /// own identifier.
    pub closed spec fn wf(&self) -> bool {
        &&& self.children.wf()
        &&& forall|k: Seq<char>| #[trigger]
            self.children@.contains_key(k) ==> self.children@[k].actor_id@ == k
    }

    /// The identifier of the parent.
    pub open spec fn parent_id(&self) -> ActorId {
        self@.parent_id
    }

    /// The table as plain values.
    pub closed spec fn view(&self) -> SupervisedView {
        SupervisedView { parent_id: self.actor_id, children: self.children@ }
    }

    /// A table without children, for the parent `actor_id`.
    pub fn new(actor_id: ActorId) -> (s: Supervised)
        ensures
            s.wf(),
            s.parent_id() == actor_id,
            s@.children == Map::<Seq<char>, BoxedActorRef>::empty(),
    {
        Supervised { actor_id, children: IdTable::new() }
    }

    /// Records `actor_ref` as a child, under its own identifier.
    pub fn attach_child_ref(&mut self, actor_ref: BoxedActorRef)
        requires
            old(self).wf(),
        ensures
            final(self).wf(),
            final(self).parent_id() == old(self).parent_id(),
            final(self)@.children == old(self)@.children.insert(actor_ref.actor_id@, actor_ref),
    {
        let id = actor_ref.actor_id.clone();
        let _ = self.children.insert(id, actor_ref);
    }

    /// Creates the handle of a new child `id` of type `actor_type` and
    /// records it. The caller starts the child with this parent.
    pub fn spawn(&mut self, id: ActorId, actor_type: String) -> (child: LocalActorRef)
        requires
            old(self).wf(),
        ensures
            final(self).wf(),
            final(self).parent_id() == old(self).parent_id(),
            child.id == id,
            child.actor_type == actor_type,
            final(self)@.children == old(self)@.children.insert(
                id@,
                BoxedActorRef { actor_id: child.id, actor_type: child.actor_type },
            ),
    {
        let child = LocalActorRef::new(id, actor_type);
        self.attach_child_ref(child.duplicate().into_boxed());
        child
    }

    /// The child `id`, with its type erased.
    pub fn child_boxed(&self, id: &ActorId) -> (child: Option<BoxedActorRef>)
        requires
            self.wf(),
        ensures
            child == (if self@.children.contains_key(id@) {
                Some(self@.children[id@])
            } else {
                None::<BoxedActorRef>
            }),
    {
        match self.children.get(id) {
            Some(child) => Some(child.duplicate()),
            None => None,
        }
    }

    /// The child `id` as an actor of type `actor_type`; nothing where there
    /// is no such child or its type is another.
    pub fn child(&self, id: &ActorId, actor_type: &String) -> (child: Option<LocalActorRef>)
        requires
            self.wf(),
        ensures
            child == (if self@.children.contains_key(id@) && self@.children[id@].actor_type@ == actor_type@ {
                Some(LocalActorRef { id: self@.children[id@].actor_id, actor_type: self@.children[id@].actor_type })
            } else {
                None::<LocalActorRef>
            }),
    {
        match self.children.get(id) {
            Some(child) => child.as_actor(actor_type),
            None => None,
        }
    }

    /// The number of children. There are finitely many.
    pub fn count(&self) -> (n: usize)
        requires
            self.wf(),
        ensures
            self@.children.dom().finite(),
            n == self@.children.dom().len(),
    {
        self.children.count()
    }

    /// A table holds finitely many children.
    pub proof fn lemma_children_finite(&self)
        requires
            self.wf(),
        ensures
            self@.children.dom().finite(),
    {
        self.children.lemma_ids();
    }

    /// Whether there is no child.
    pub fn is_empty(&self) -> (empty: bool)
        requires
            self.wf(),
        ensures
            empty == (self@.children == Map::<Seq<char>, BoxedActorRef>::empty()),
    {
        let n = self.children.count();
        proof {
            self.children.lemma_ids();
            if n == 0 {
                self.children@.dom().lemma_len0_is_empty();
                assert(self@.children =~= Map::<Seq<char>, BoxedActorRef>::empty());
            } else {
                assert(Map::<Seq<char>, BoxedActorRef>::empty().dom().len() == 0);
            }
        }
        n == 0
    }

    /// Every child, each once, in no particular order. The table keeps them.
    pub fn child_refs(&self) -> (refs: Vec<BoxedActorRef>)
        requires
            self.wf(),
        ensures
            stops_exactly(refs@, self@.children),
    {
        let ids = self.children.keys();
        let ghost keys = self.children.ids();
        let mut refs: Vec<BoxedActorRef> = Vec::new();
        let mut i: usize = 0;
        while i < ids.len()
            invariant
                self.wf(),
                i <= ids@.len(),
                refs@.len() == i,
                ids@.map_values(|s: ActorId| s@) == keys,
                keys.no_duplicates(),
                forall|k: Seq<char>| keys.contains(k) <==> self.children@.contains_key(k),
                forall|j: int|
                    0 <= j < i ==> (#[trigger] refs@[j]).actor_id@ == keys[j]
                        && self.children@.contains_key(keys[j]) && self.children@[keys[j]]
                        == refs@[j],
            decreases ids@.len() - i,
        {
            assert(keys[i as int] == ids@[i as int]@);
            assert(keys.contains(keys[i as int]));
            match self.children.get(&ids[i]) {
                Some(child) => {
                    refs.push(child.duplicate());
                },
                None => {
                    assert(false);
                },
            }
            i += 1;
        }
        proof {
            assert(refs@.len() == keys.len());
            assert forall|k: Seq<char>| self@.children.contains_key(k) implies exists|j: int|
                0 <= j < refs@.len() && #[trigger] refs@[j].actor_id@ == k by {
                assert(self.children@.contains_key(k));
                assert(keys.contains(k));
                let m = keys.index_of(k);
                assert(0 <= m < keys.len() && keys[m] == k);
                assert(refs@[m].actor_id@ == k);
            }
            assert forall|j: int| 0 <= j < refs@.len() implies self@.children.contains_key(
                #[trigger] refs@[j].actor_id@,
            ) && self@.children[refs@[j].actor_id@] == refs@[j] by {
                assert(keys.contains(keys[j]));
            }
        }
        refs
    }

    /// Forgets the child `id`, which has terminated. Returns whether it was
    /// a child.
    pub fn on_child_terminated(&mut self, id: &ActorId) -> (known: bool)
        requires
            old(self).wf(),
        ensures
            final(self).wf(),
            final(self).parent_id() == old(self).parent_id(),
            final(self)@.children == old(self)@.children.remove(id@),
            known == old(self)@.children.contains_key(id@),
    {
        self.children.remove(id).is_some()
    }

    /// Hands out every child, to be asked to stop, and forgets them. Each
    /// child comes out once.
    pub fn stop_all(&mut self) -> (stopping: Vec<BoxedActorRef>)
        requires
            old(self).wf(),
        ensures
            final(self).wf(),
            final(self).parent_id() == old(self).parent_id(),
            final(self)@.children == Map::<Seq<char>, BoxedActorRef>::empty(),
            stops_exactly(stopping@, old(self)@.children),
    {
        let mut entries = self.children.take_all();
        let ghost taken = entries@;
        let mut stopping: Vec<BoxedActorRef> = Vec::new();
        let mut i: usize = entries.len();
        while i > 0
            invariant
                i == entries@.len(),
                i <= taken.len(),
                entries@ == taken.subrange(0, i as int),
                stopping@.len() == taken.len() - i,
                forall|j: int|
                    0 <= j < stopping@.len() ==> stopping@[j] == taken[taken.len() - 1 - j].value,
            decreases i,
        {
            let entry = entries.pop().unwrap();
            stopping.push(entry.value);
            i -= 1;
        }
        proof {
            let ids = taken.map_values(|e: Entry<BoxedActorRef>| e.id@);
            assert forall|j: int| 0 <= j < stopping@.len() implies old(self)@.children.contains_key(
                #[trigger] stopping@[j].actor_id@,
            ) && old(self)@.children[stopping@[j].actor_id@] == stopping@[j] by {
                let k = taken.len() - 1 - j;
                assert(old(self)@.children.contains_key(taken[k].id@));
            }
            assert forall|k: Seq<char>| old(self)@.children.contains_key(k) implies exists|j: int|
                0 <= j < stopping@.len() && #[trigger] stopping@[j].actor_id@ == k by {
                assert(ids.contains(k));
                let m = ids.index_of(k);
                assert(old(self)@.children.contains_key(taken[m].id@));
                assert(stopping@[taken.len() - 1 - m].actor_id@ == k);
            }
            assert forall|a: int, b: int|
                0 <= a < b < stopping@.len() implies stopping@[a].actor_id@
                != stopping@[b].actor_id@ by {
                let ka = taken.len() - 1 - a;
                let kb = taken.len() - 1 - b;
                assert(old(self)@.children.contains_key(taken[ka].id@));
                assert(old(self)@.children.contains_key(taken[kb].id@));
                assert(ids[ka] == taken[ka].id@);
                assert(ids[kb] == taken[kb].id@);
            }
        }
        stopping
    }
}

/// `stopping` lists the children in `children`, each exactly once.
pub open spec fn stops_exactly(
    stopping: Seq<BoxedActorRef>,
    children: Map<Seq<char>, BoxedActorRef>,
) -> bool {
    &&& forall|j: int|
        0 <= j < stopping.len() ==> children.contains_key(#[trigger] stopping[j].actor_id@)
            && children[stopping[j].actor_id@] == stopping[j]
    &&& forall|k: Seq<char>|
        children.contains_key(k) ==> exists|j: int|
            0 <= j < stopping.len() && #[trigger] stopping[j].actor_id@ == k
    &&& forall|a: int, b: int|
        0 <= a < b < stopping.len() ==> stopping[a].actor_id@ != stopping[b].actor_id@
}

} // verus!

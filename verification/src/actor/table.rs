//! A table keyed by actor identifier.

use vstd::prelude::*;

verus! {

/// An actor identifier: a short printable string.
pub type ActorId = String;

/// One entry of an [`IdTable`].
#[derive(Debug, PartialEq, Eq)]
pub struct Entry<V> {
    pub id: ActorId,
    pub value: V,
}

/// A finite map from actor identifiers to values. No identifier occurs twice;
/// the order in which entries were added carries no meaning.
pub struct IdTable<V> {
    entries: Vec<Entry<V>>,
}

impl<V> IdTable<V> {
    /// The identifiers held, in storage order.
    pub closed spec fn ids(&self) -> Seq<Seq<char>> {
        self.entries@.map_values(|e: Entry<V>| e.id@)
    }

    /// No identifier occurs twice.
    pub closed spec fn wf(&self) -> bool {
        self.ids().no_duplicates()
    }

    /// The table as a mathematical map.
    pub closed spec fn view(&self) -> Map<Seq<char>, V> {
        Map::new(
            |k: Seq<char>| self.ids().contains(k),
            |k: Seq<char>| self.entries@[self.ids().index_of(k)].value,
        )
    }

    /// The identifiers held are exactly the keys of the map, each once.
    pub proof fn lemma_ids(&self)
        requires
            self.wf(),
        ensures
            self@.dom().finite(),
            self@.dom().len() == self.ids().len(),
            self.ids().no_duplicates(),
            forall|k: Seq<char>| self.ids().contains(k) <==> self@.contains_key(k),
    {
        assert(self@.dom() =~= self.ids().to_set());
        self.ids().unique_seq_to_set();
    }

    proof fn lemma_index_of(s: Seq<Seq<char>>, i: int)
        requires
            s.no_duplicates(),
            0 <= i < s.len(),
        ensures
            s.index_of(s[i]) == i,
            s.contains(s[i]),
    {
    }

    /// An empty table.
    pub fn new() -> (table: Self)
        ensures
            table.wf(),
            table@ == Map::<Seq<char>, V>::empty(),
    {
        let table = IdTable { entries: Vec::new() };
        assert(table.ids() =~= Seq::empty());
        assert(table@ =~= Map::<Seq<char>, V>::empty());
        table
    }

    /// The number of entries.
    pub fn count(&self) -> (n: usize)
        requires
            self.wf(),
        ensures
            self@.dom().finite(),
            n == self@.dom().len(),
            n == self.ids().len(),
    {
        proof {
            self.lemma_ids();
        }
        self.entries.len()
    }

    fn position(&self, id: &ActorId) -> (pos: Option<usize>)
        ensures
            match pos {
                Some(i) => i < self.entries@.len() && self.ids()[i as int] == id@,
                None => !self.ids().contains(id@),
            },
    {
        let mut i: usize = 0;
        while i < self.entries.len()
            invariant
                i <= self.entries@.len(),
                forall|j: int| 0 <= j < i ==> self.ids()[j] != id@,
            decreases self.entries@.len() - i,
        {
            if self.entries[i].id == *id {
                return Some(i);
            }
            i += 1;
        }
        None
    }

    /// Whether `id` has an entry.
    pub fn contains(&self, id: &ActorId) -> (found: bool)
        requires
            self.wf(),
        ensures
            found == self@.contains_key(id@),
    {
        self.position(id).is_some()
    }

    /// The value stored under `id`, if any.
    pub fn get(&self, id: &ActorId) -> (value: Option<&V>)
        requires
            self.wf(),
        ensures
            match value {
                Some(v) => self@.contains_key(id@) && *v == self@[id@],
                None => !self@.contains_key(id@),
            },
    {
        match self.position(id) {
            Some(i) => {
                proof {
                    Self::lemma_index_of(self.ids(), i as int);
                }
                Some(&self.entries[i].value)
            },
            None => None,
        }
    }

    /// Stores `value` under `id`, replacing and returning an earlier value.
    pub fn insert(&mut self, id: ActorId, value: V) -> (previous: Option<V>)
        requires
            old(self).wf(),
        ensures
            final(self).wf(),
            final(self)@ == old(self)@.insert(id@, value),
            previous == (if old(self)@.contains_key(id@) {
                Some(old(self)@[id@])
            } else {
                None::<V>
            }),
    {
        let previous = self.remove(&id);
        let ghost mid = *self;
        let ghost key = id@;
        self.entries.push(Entry { id, value });
        proof {
            let a = mid.ids();
            let b = self.ids();
            assert(b =~= a.push(key));
            assert(!mid@.contains_key(key));
            assert(!a.contains(key));
            assert(b.no_duplicates());
            assert(self.entries@ =~= mid.entries@.push(self.entries@[a.len() as int]));
            assert forall|k: Seq<char>| a.contains(k) implies b.contains(k) && k != key
                && self.entries@[b.index_of(k)].value == mid.entries@[a.index_of(k)].value by {
                let i = a.index_of(k);
                assert(b[i] == k);
                Self::lemma_index_of(b, i);
            }
            Self::lemma_index_of(b, a.len() as int);
            assert(b.contains(key) && self.entries@[b.index_of(key)].value == value);
            assert forall|k: Seq<char>| b.contains(k) implies k == key || a.contains(k) by {
                let j = b.index_of(k);
                if j < a.len() {
                    assert(a[j] == k);
                }
            }
            assert(self@.dom() =~= mid@.insert(key, value).dom());
            assert(self@ =~= mid@.insert(key, value));
            assert(mid@.insert(key, value) =~= old(self)@.insert(key, value));
        }
        previous
    }

    /// Removes and returns the value stored under `id`, if any.
    pub fn remove(&mut self, id: &ActorId) -> (removed: Option<V>)
        requires
            old(self).wf(),
        ensures
            final(self).wf(),
            final(self)@ == old(self)@.remove(id@),
            removed == (if old(self)@.contains_key(id@) {
                Some(old(self)@[id@])
            } else {
                None::<V>
            }),
    {
        match self.position(id) {
            Some(i) => {
                proof {
                    Self::lemma_index_of(self.ids(), i as int);
                }
                let entry = self.entries.remove(i);
                proof {
                    let a = old(self).ids();
                    let b = self.ids();
                    assert(b =~= a.remove(i as int));
                    assert forall|k: Seq<char>| b.contains(k) implies a.contains(k) && k != id@
                        && old(self).entries@[a.index_of(k)].value == self.entries@[b.index_of(
                        k,
                    )].value by {
                        let j = b.index_of(k);
                        let j0 = if j < i { j } else { j + 1 };
                        assert(a[j0] == k);
                        Self::lemma_index_of(a, j0);
                    }
                    assert forall|k: Seq<char>| a.contains(k) && k != id@ implies b.contains(k) by {
                        let j0 = a.index_of(k);
                        let j = if j0 < i { j0 } else { j0 - 1 };
                        assert(b[j] == k);
                    }
                    assert(self@ =~= old(self)@.remove(id@));
                }
                Some(entry.value)
            },
            None => {
                assert(self@ =~= old(self)@.remove(id@));
                None
            },
        }
    }

    /// Empties the table and hands out what it held, each entry once.
    pub fn take_all(&mut self) -> (all: Vec<Entry<V>>)
        requires
            old(self).wf(),
        ensures
            final(self).wf(),
            final(self)@ == Map::<Seq<char>, V>::empty(),
            all@.map_values(|e: Entry<V>| e.id@) == old(self).ids(),
            old(self).ids().no_duplicates(),
            forall|i: int|
                0 <= i < all@.len() ==> old(self)@.contains_key(#[trigger] all@[i].id@) && old(
                    self,
                )@[all@[i].id@] == all@[i].value,
            forall|k: Seq<char>|
                old(self)@.contains_key(k) <==> old(self).ids().contains(k),
    {
        let mut all: Vec<Entry<V>> = Vec::new();
        std::mem::swap(&mut self.entries, &mut all);
        proof {
            assert(self.ids() =~= Seq::empty());
            assert(self@ =~= Map::<Seq<char>, V>::empty());
            assert forall|i: int| 0 <= i < all@.len() implies old(self)@.contains_key(
                #[trigger] all@[i].id@,
            ) && old(self)@[all@[i].id@] == all@[i].value by {
                Self::lemma_index_of(old(self).ids(), i);
            }
        }
        all
    }

    /// The identifiers held, each once, in no particular order.
    pub fn keys(&self) -> (ids: Vec<ActorId>)
        requires
            self.wf(),
        ensures
            ids@.len() == self@.dom().len(),
            ids@.map_values(|s: ActorId| s@) == self.ids(),
            forall|k: Seq<char>| self.ids().contains(k) <==> self@.contains_key(k),
            self.ids().no_duplicates(),
    {
        proof {
            self.lemma_ids();
        }
        let mut ids: Vec<ActorId> = Vec::new();
        let mut i: usize = 0;
        while i < self.entries.len()
            invariant
                i <= self.entries@.len(),
                ids@.len() == i,
                forall|j: int| 0 <= j < i ==> ids@[j]@ == self.ids()[j],
            decreases self.entries@.len() - i,
        {
            ids.push(self.entries[i].id.clone());
            i += 1;
        }
        assert(ids@.map_values(|s: ActorId| s@) =~= self.ids());
        ids
    }
}

} // verus!

//! The nodes of a cluster, and which of them keeps the directory entry of a
//! given key.

use vstd::prelude::*;
use crate::remote::hash::{hash_key, key_hash, FNV_OFFSET, FNV_PRIME};

verus! {

/// The identifier of a node, unique within a cluster.
pub type NodeId = u64;

/// A node of the cluster.
#[derive(Debug, Clone, PartialEq, Eq)]
pub struct RemoteNode {
    pub id: NodeId,
    /// The address the node listens on.
    pub addr: String,
    pub tag: String,
    /// When the node started, in milliseconds since the Unix epoch.
    pub node_started_at: Option<i64>,
}

impl RemoteNode {
    pub fn new(id: NodeId, addr: String, tag: String, node_started_at: Option<i64>) -> (node: Self)
        ensures
            node == (RemoteNode { id, addr, tag, node_started_at }),
    {
        RemoteNode { id, addr, tag, node_started_at }
    }

    pub fn duplicate(&self) -> (node: Self)
        ensures
            node == *self,
    {
        RemoteNode {
            id: self.id,
            addr: self.addr.clone(),
            tag: self.tag.clone(),
            node_started_at: self.node_started_at,
        }
    }
}

/// Where a node sits on the ring.
pub open spec fn ring_position(id: NodeId) -> u64 {
    vstd::wrapping::u64_specs::wrapping_mul(FNV_OFFSET ^ id, FNV_PRIME)
}

/// How far ahead of `key` the node `id` sits on the ring, going round.
pub open spec fn ring_distance(id: NodeId, key: u64) -> u64 {
    vstd::wrapping::u64_specs::wrapping_sub(ring_position(id), key)
}

/// Whether node `a` comes before node `b` for `key`: it sits nearer ahead
/// of the key, or equally near with the smaller identifier.
pub open spec fn precedes(a: NodeId, b: NodeId, key: u64) -> bool {
    ring_distance(a, key) < ring_distance(b, key) || (ring_distance(a, key) == ring_distance(
        b,
        key,
    ) && a <= b)
}

/// Whether `id` is the member that keeps the directory entries of `key`:
/// the one that comes before every other member.
pub open spec fn is_directory_node(members: Set<NodeId>, key: u64, id: NodeId) -> bool {
    &&& members.contains(id)
    &&& forall|other: NodeId| members.contains(other) ==> precedes(id, other, key)
}

/// Among given members, a key has at most one directory node.
pub proof fn lemma_directory_node_unique(members: Set<NodeId>, key: u64, a: NodeId, b: NodeId)
    requires
        is_directory_node(members, key, a),
        is_directory_node(members, key, b),
    ensures
        a == b,
{
    assert(precedes(a, b, key));
    assert(precedes(b, a, key));
}

fn position(id: NodeId) -> (p: u64)
    ensures
        p == ring_position(id),
{
    (FNV_OFFSET ^ id).wrapping_mul(FNV_PRIME)
}

fn comes_before(a: NodeId, b: NodeId, key: u64) -> (r: bool)
    ensures
        r == precedes(a, b, key),
{
    let da = position(a).wrapping_sub(key);
    let db = position(b).wrapping_sub(key);
    da < db || (da == db && a <= b)
}

/// The members of the cluster as this node knows them. No identifier
/// occurs twice.
pub struct RemoteNodes {
    nodes: Vec<RemoteNode>,
}

impl RemoteNodes {
    /// The identifiers of the members, in storage order.
    pub closed spec fn ids(&self) -> Seq<NodeId> {
        self.nodes@.map_values(|n: RemoteNode| n.id)
    }

    pub closed spec fn wf(&self) -> bool {
        self.ids().no_duplicates()
    }

    /// The members, by identifier.
    pub closed spec fn view(&self) -> Map<NodeId, RemoteNode> {
        Map::new(
            |id: NodeId| self.ids().contains(id),
            |id: NodeId| self.nodes@[self.ids().index_of(id)],
        )
    }

    /// Each member is filed under its own identifier, and there are
    /// finitely many.
    pub proof fn lemma_members(&self)
        requires
            self.wf(),
        ensures
            self@.dom().finite(),
            self@.dom().len() == self.ids().len(),
            forall|id: NodeId| self.ids().contains(id) <==> self@.contains_key(id),
            forall|id: NodeId| #[trigger] self@.contains_key(id) ==> self@[id].id == id,
    {
        assert(self@.dom() =~= self.ids().to_set());
        self.ids().unique_seq_to_set();
    }

    proof fn lemma_index_of(s: Seq<NodeId>, i: int)
        requires
            s.no_duplicates(),
            0 <= i < s.len(),
        ensures
            s.index_of(s[i]) == i,
            s.contains(s[i]),
    {
    }

    /// No members.
    pub fn new() -> (nodes: Self)
        ensures
            nodes.wf(),
            nodes@ == Map::<NodeId, RemoteNode>::empty(),
    {
        let nodes = RemoteNodes { nodes: Vec::new() };
        assert(nodes.ids() =~= Seq::empty());
        assert(nodes@ =~= Map::<NodeId, RemoteNode>::empty());
        nodes
    }

    fn find(&self, id: NodeId) -> (pos: Option<usize>)
        ensures
            match pos {
                Some(i) => i < self.nodes@.len() && self.ids()[i as int] == id,
                None => !self.ids().contains(id),
            },
    {
        let mut i: usize = 0;
        while i < self.nodes.len()
            invariant
                i <= self.nodes@.len(),
                forall|j: int| 0 <= j < i ==> self.ids()[j] != id,
            decreases self.nodes@.len() - i,
        {
            if self.nodes[i].id == id {
                return Some(i);
            }
            i += 1;
        }
        None
    }

    /// Whether `id` is a member.
    pub fn is_registered(&self, id: NodeId) -> (known: bool)
        requires
            self.wf(),
        ensures
            known == self@.contains_key(id),
    {
        self.find(id).is_some()
    }

    /// The member `id`, if there is one.
    pub fn get(&self, id: NodeId) -> (node: Option<&RemoteNode>)
        requires
            self.wf(),
        ensures
            match node {
                Some(n) => self@.contains_key(id) && *n == self@[id],
                None => !self@.contains_key(id),
            },
    {
        match self.find(id) {
            Some(i) => {
                proof {
                    Self::lemma_index_of(self.ids(), i as int);
                }
                Some(&self.nodes[i])
            },
            None => None,
        }
    }

    /// Makes `node` a member, in place of an earlier member with the same
    /// identifier.
    pub fn add(&mut self, node: RemoteNode)
        requires
            old(self).wf(),
        ensures
            final(self).wf(),
            final(self)@ == old(self)@.insert(node.id, node),
    {
        self.remove(node.id);
        let ghost mid = *self;
        self.nodes.push(node);
        proof {
            let a = mid.ids();
            let b = self.ids();
            assert(b =~= a.push(node.id));
            assert(!mid@.contains_key(node.id));
            assert(!a.contains(node.id));
            assert(b.no_duplicates());
            assert(self.nodes@ =~= mid.nodes@.push(node));
            assert forall|k: NodeId| a.contains(k) implies b.contains(k) && k != node.id
                && self.nodes@[b.index_of(k)] == mid.nodes@[a.index_of(k)] by {
                let i = a.index_of(k);
                assert(b[i] == k);
                Self::lemma_index_of(b, i);
            }
            Self::lemma_index_of(b, a.len() as int);
            assert forall|k: NodeId| b.contains(k) implies k == node.id || a.contains(k) by {
                let j = b.index_of(k);
                if j < a.len() {
                    assert(a[j] == k);
                }
            }
            assert(self@.dom() =~= mid@.insert(node.id, node).dom());
            assert(self@ =~= mid@.insert(node.id, node));
            assert(mid@.insert(node.id, node) =~= old(self)@.insert(node.id, node));
        }
    }

    /// Drops the member `id`, if there is one.
    pub fn remove(&mut self, id: NodeId)
        requires
            old(self).wf(),
        ensures
            final(self).wf(),
            final(self)@ == old(self)@.remove(id),
    {
        match self.find(id) {
            Some(i) => {
                proof {
                    Self::lemma_index_of(self.ids(), i as int);
                }
                let _ = self.nodes.remove(i);
                proof {
                    let a = old(self).ids();
                    let b = self.ids();
                    assert(b =~= a.remove(i as int));
                    assert forall|k: NodeId| b.contains(k) implies a.contains(k) && k != id
                        && old(self).nodes@[a.index_of(k)] == self.nodes@[b.index_of(k)] by {
                        let j = b.index_of(k);
                        let j0 = if j < i { j } else { j + 1 };
                        assert(a[j0] == k);
                        Self::lemma_index_of(a, j0);
                    }
                    assert forall|k: NodeId| a.contains(k) && k != id implies b.contains(k) by {
                        let j0 = a.index_of(k);
                        let j = if j0 < i { j0 } else { j0 - 1 };
                        assert(b[j] == k);
                    }
                    assert(self@ =~= old(self)@.remove(id));
                }
            },
            None => {
                assert(self@ =~= old(self)@.remove(id));
            },
        }
    }

    /// The members, each once, in no particular order.
    pub fn get_all(&self) -> (all: Vec<RemoteNode>)
        requires
            self.wf(),
        ensures
            lists_members(all@, self@),
    {
        let mut all: Vec<RemoteNode> = Vec::new();
        let mut i: usize = 0;
        while i < self.nodes.len()
            invariant
                i <= self.nodes@.len(),
                all@ == self.nodes@.take(i as int),
            decreases self.nodes@.len() - i,
        {
            all.push(self.nodes[i].duplicate());
            assert(all@ =~= self.nodes@.take(i + 1));
            i += 1;
        }
        proof {
            assert(all@ =~= self.nodes@);
            assert forall|j: int| 0 <= j < all@.len() implies self@.contains_key(
                (#[trigger] all@[j]).id,
            ) && self@[all@[j].id] == all@[j] by {
                Self::lemma_index_of(self.ids(), j);
            }
            assert forall|id: NodeId| self@.contains_key(id) implies exists|j: int|
                0 <= j < all@.len() && (#[trigger] all@[j]).id == id by {
                let j = self.ids().index_of(id);
                assert(all@[j].id == id);
            }
            assert forall|a: int, b: int| 0 <= a < b < all@.len() implies all@[a].id
                != all@[b].id by {
                assert(self.ids()[a] == all@[a].id);
                assert(self.ids()[b] == all@[b].id);
            }
        }
        all
    }

    /// The number of members.
    pub fn len(&self) -> (n: usize)
        requires
            self.wf(),
        ensures
            n == self@.dom().len(),
    {
        proof {
            self.lemma_members();
        }
        self.nodes.len()
    }

    /// Takes `nodes` as the membership, in place of what was known. Where an
    /// identifier occurs more than once in `nodes`, the last occurrence
    /// stands.
    pub fn update_nodes(&mut self, nodes: Vec<RemoteNode>)
        requires
            old(self).wf(),
        ensures
            final(self).wf(),
            final(self)@ == with_nodes(Map::empty(), nodes@),
    {
        let mut fresh = RemoteNodes::new();
        let mut i: usize = 0;
        while i < nodes.len()
            invariant
                i <= nodes@.len(),
                fresh.wf(),
                fresh@ == with_nodes(Map::empty(), nodes@.take(i as int)),
            decreases nodes@.len() - i,
        {
            proof {
                assert(nodes@.take(i + 1).drop_last() =~= nodes@.take(i as int));
            }
            fresh.add(nodes[i].duplicate());
            i += 1;
        }
        proof {
            assert(nodes@.take(i as int) =~= nodes@);
        }
        *self = fresh;
    }

    /// The member that keeps the directory entries of `key`; nothing where
    /// there is no member.
    pub fn get_by_key(&self, key: &str) -> (node: Option<&RemoteNode>)
        requires
            self.wf(),
        ensures
            match node {
                Some(n) => is_directory_node(self@.dom(), key_hash(key@), n.id) && self@[n.id]
                    == *n,
                None => self@ == Map::<NodeId, RemoteNode>::empty(),
            },
    {
        if self.nodes.len() == 0 {
            assert(self.ids() =~= Seq::empty());
            assert(self@ =~= Map::<NodeId, RemoteNode>::empty());
            return None;
        }
        let hash = hash_key(key);
        let mut best: usize = 0;
        let mut i: usize = 1;
        while i < self.nodes.len()
            invariant
                1 <= i <= self.nodes@.len(),
                best < i,
                forall|j: int| 0 <= j < i ==> precedes(self.ids()[best as int], self.ids()[j], hash),
            decreases self.nodes@.len() - i,
        {
            if !comes_before(self.nodes[best].id, self.nodes[i].id, hash) {
                proof {
                    let b = self.ids()[best as int];
                    let c = self.ids()[i as int];
                    assert(precedes(c, b, hash));
                    assert forall|j: int| 0 <= j < i + 1 implies precedes(
                        c,
                        self.ids()[j],
                        hash,
                    ) by {
                        if j < i {
                            assert(precedes(b, self.ids()[j], hash));
                        }
                    }
                }
                best = i;
            }
            i += 1;
        }
        proof {
            Self::lemma_index_of(self.ids(), best as int);
            let id = self.ids()[best as int];
            assert forall|other: NodeId| self@.dom().contains(other) implies precedes(
                id,
                other,
                hash,
            ) by {
                let j = self.ids().index_of(other);
                assert(self.ids()[j] == other);
            }
        }
        Some(&self.nodes[best])
    }
}

/// `all` lists the members in `members`, each exactly once.
pub open spec fn lists_members(all: Seq<RemoteNode>, members: Map<NodeId, RemoteNode>) -> bool {
    &&& forall|j: int|
        0 <= j < all.len() ==> members.contains_key((#[trigger] all[j]).id) && members[all[j].id]
            == all[j]
    &&& forall|id: NodeId|
        members.contains_key(id) ==> exists|j: int| 0 <= j < all.len() && (#[trigger] all[j]).id == id
    &&& forall|a: int, b: int| 0 <= a < b < all.len() ==> all[a].id != all[b].id
}

/// The membership `members` after each of `nodes` has been added in order.
pub open spec fn with_nodes(members: Map<NodeId, RemoteNode>, nodes: Seq<RemoteNode>) -> Map<
    NodeId,
    RemoteNode,
>
    decreases nodes.len(),
{
    if nodes.len() == 0 {
        members
    } else {
        with_nodes(members, nodes.drop_last()).insert(nodes.last().id, nodes.last())
    }
}

} // verus!

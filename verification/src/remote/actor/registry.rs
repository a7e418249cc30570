//! The registry of a node: the members of the cluster as this node knows
//! them, and the directory entries this node keeps.

use vstd::prelude::*;
use crate::actor::refs::ActorRefErr;
use crate::actor::table::{ActorId, IdTable};
use crate::remote::actor::message::{request_id_text, uuid_parse, uuid_text, RemoteResponse, RequestId};
use crate::remote::cluster::node::{
    is_directory_node, lemma_directory_node_unique, lists_members, with_nodes, NodeId, RemoteNode,
    RemoteNodes,
};
use crate::remote::hash::key_hash;
use crate::remote::net::proto::{ActorAddress, FindActor};

verus! {

/// Asks the registry to record where an actor lives. Without a node, the
/// actor lives on the node that is asked.
#[derive(Debug, Clone, PartialEq, Eq)]
pub struct RegisterActor {
    pub actor_id: ActorId,
    pub node_id: Option<NodeId>,
}

impl RegisterActor {
    pub fn new(actor_id: ActorId, node_id: Option<NodeId>) -> (message: Self)
        ensures
            message.actor_id == actor_id,
            message.node_id == node_id,
    {
        RegisterActor { actor_id, node_id }
    }
}

/// What became of a [`RegisterActor`].
#[derive(Debug, PartialEq, Eq)]
pub enum RegisterActorOutcome {
    /// The entry was written to this node's table.
    Registered,
    /// Another node keeps the directory entries of this actor: `event` is to
    /// be sent to it.
    Forward { directory_node: NodeId, event: ActorAddress },
    /// The registry belongs to no node yet. Nothing was done.
    Ignored,
}

/// How the node that hosts an actor is found.
#[derive(Debug, PartialEq, Eq)]
pub enum ActorNodeLookup {
    /// This node's table answers.
    Answer(Option<NodeId>),
    /// The directory node has to be asked.
    AskDirectory { directory_node: NodeId },
}

/// How an attempt to reach a newly discovered node ended.
#[derive(Debug, PartialEq, Eq)]
pub enum ConnectAttempt {
    /// No client could be created for the node.
    ClientFailed,
    /// The client was created and the handshake gave nothing.
    HandshakeFailed,
    /// The handshake gave the node as the peer describes itself.
    Connected(RemoteNode),
}

/// The nodes that answered the handshake, in the order of the attempts.
pub open spec fn connected_nodes(attempts: Seq<ConnectAttempt>) -> Seq<RemoteNode>
    decreases attempts.len(),
{
    if attempts.len() == 0 {
        Seq::empty()
    } else {
        match attempts.last() {
            ConnectAttempt::Connected(node) => connected_nodes(attempts.drop_last()).push(node),
            _ => connected_nodes(attempts.drop_last()),
        }
    }
}

/// Collects the nodes that were reached. A node whose client could not be
/// created or whose handshake failed is left out.
pub fn connect_all(attempts: Vec<ConnectAttempt>) -> (connected: Vec<RemoteNode>)
    ensures
        connected@ == connected_nodes(attempts@),
{
    let mut attempts = attempts;
    let ghost all = attempts@;
    let mut reversed: Vec<RemoteNode> = Vec::new();
    while attempts.len() > 0
        invariant
            attempts@.len() <= all.len(),
            attempts@ == all.take(attempts@.len() as int),
            connected_nodes(all) == connected_nodes(attempts@) + reversed@.reverse(),
        decreases attempts@.len(),
    {
        let ghost before = attempts@;
        let ghost done = reversed@;
        let attempt = attempts.pop().unwrap();
        proof {
            assert(attempts@ =~= before.drop_last());
            assert(attempts@ =~= all.take(attempts@.len() as int));
        }
        match attempt {
            ConnectAttempt::Connected(node) => {
                reversed.push(node);
                proof {
                    assert(done.push(node).reverse() =~= seq![node] + done.reverse());
                    assert(connected_nodes(attempts@).push(node) + done.reverse()
                        =~= connected_nodes(attempts@) + (seq![node] + done.reverse()));
                }
            },
            _ => {},
        }
    }
    let ghost rev = reversed@;
    let mut connected: Vec<RemoteNode> = Vec::new();
    while reversed.len() > 0
        invariant
            reversed@.len() <= rev.len(),
            reversed@ == rev.take(reversed@.len() as int),
            connected@ + reversed@.reverse() == rev.reverse(),
        decreases reversed@.len(),
    {
        let ghost before = reversed@;
        let ghost done = connected@;
        let node = reversed.pop().unwrap();
        connected.push(node);
        proof {
            assert(reversed@ =~= before.drop_last());
            assert(reversed@ =~= rev.take(reversed@.len() as int));
            assert(before.reverse() =~= seq![node] + reversed@.reverse());
            assert(done.push(node) + reversed@.reverse() =~= done + before.reverse());
        }
    }
    proof {
        assert(rev.take(rev.len() as int) =~= rev);
        assert(connected_nodes(all.take(0)) =~= Seq::<RemoteNode>::empty());
        assert(connected@ =~= connected@ + reversed@.reverse());
        assert(connected_nodes(all) =~= rev.reverse());
    }
    connected
}

/// The nodes among `nodes` that a node `self_node` with the members
/// `members` has yet to connect to: those that are neither itself nor
/// known, in the order given.
pub open spec fn nodes_to_connect(
    nodes: Seq<RemoteNode>,
    members: Map<NodeId, RemoteNode>,
    self_node: NodeId,
) -> Seq<RemoteNode>
    decreases nodes.len(),
{
    if nodes.len() == 0 {
        Seq::empty()
    } else {
        let rest = nodes_to_connect(nodes.drop_last(), members, self_node);
        if nodes.last().id != self_node && !members.contains_key(nodes.last().id) {
            rest.push(nodes.last())
        } else {
            rest
        }
    }
}

/// Whether a node with identifier `id` is among `nodes`.
pub open spec fn has_node(nodes: Seq<RemoteNode>, id: NodeId) -> bool {
    exists|i: int| 0 <= i < nodes.len() && (#[trigger] nodes[i]).id == id
}

/// The nodes among `nodes` that join the membership: this node itself,
/// those known before, and those that were reached. A node that had to be
/// connected to and was not reached stays out.
pub open spec fn nodes_to_add(
    nodes: Seq<RemoteNode>,
    members: Map<NodeId, RemoteNode>,
    self_node: NodeId,
    connected: Seq<RemoteNode>,
) -> Seq<RemoteNode>
    decreases nodes.len(),
{
    if nodes.len() == 0 {
        Seq::empty()
    } else {
        let rest = nodes_to_add(nodes.drop_last(), members, self_node, connected);
        let id = nodes.last().id;
        if id == self_node || members.contains_key(id) || has_node(connected, id) {
            rest.push(nodes.last())
        } else {
            rest
        }
    }
}

/// Whether `d` is the node that keeps the directory entries of `actor`, as
/// a node `self_node` with the members `members` sees it: the member the
/// ring gives, or the node itself where it knows no members.
pub open spec fn keeps_directory_of(
    members: Map<NodeId, RemoteNode>,
    self_node: NodeId,
    actor: Seq<char>,
    d: NodeId,
) -> bool {
    if members == Map::<NodeId, RemoteNode>::empty() {
        d == self_node
    } else {
        is_directory_node(members.dom(), key_hash(actor), d)
    }
}

/// Directory entries have one home: among nodes that know the same,
/// non-empty membership, at most one keeps the entries of a given actor
/// itself.
pub proof fn lemma_directory_unique(
    members: Map<NodeId, RemoteNode>,
    actor: Seq<char>,
    a: NodeId,
    b: NodeId,
)
    requires
        members != Map::<NodeId, RemoteNode>::empty(),
        a != b,
    ensures
        !(keeps_directory_of(members, a, actor, a) && keeps_directory_of(members, b, actor, b)),
{
    if keeps_directory_of(members, a, actor, a) && keeps_directory_of(members, b, actor, b) {
        lemma_directory_node_unique(members.dom(), key_hash(actor), a, b);
    }
}

/// Whether every directory entry in `tables`, the tables of the nodes of a
/// cluster with the members `members`, is kept by the directory node of
/// its actor.
pub open spec fn entries_at_home(
    tables: Map<NodeId, Map<Seq<char>, NodeId>>,
    members: Map<NodeId, RemoteNode>,
) -> bool {
    forall|node: NodeId, actor: Seq<char>|
        tables.contains_key(node) && #[trigger] tables[node].contains_key(actor)
            ==> is_directory_node(members.dom(), key_hash(actor), node)
}

/// The tables of a cluster after the entry "`actor` lives on `host`" has
/// been written to the table of `directory_node`.
pub open spec fn with_entry(
    tables: Map<NodeId, Map<Seq<char>, NodeId>>,
    directory_node: NodeId,
    actor: Seq<char>,
    host: NodeId,
) -> Map<NodeId, Map<Seq<char>, NodeId>> {
    let table = if tables.contains_key(directory_node) {
        tables[directory_node]
    } else {
        Map::empty()
    };
    tables.insert(directory_node, table.insert(actor, host))
}

/// While the members stay the same and entries are written where the
/// registry sends them, the entry of an actor is in the table of one node
/// at most: entries that are at home stay at home when an entry is written
/// to the directory node of its actor, and of two different nodes whose
/// entries are at home, at most one has an entry for a given actor.
pub proof fn lemma_entries_stay_at_home(
    tables: Map<NodeId, Map<Seq<char>, NodeId>>,
    members: Map<NodeId, RemoteNode>,
    directory_node: NodeId,
    actor: Seq<char>,
    host: NodeId,
    a: NodeId,
    b: NodeId,
)
    requires
        entries_at_home(tables, members),
        is_directory_node(members.dom(), key_hash(actor), directory_node),
        a != b,
    ensures
        entries_at_home(with_entry(tables, directory_node, actor, host), members),
        !(tables.contains_key(a) && tables[a].contains_key(actor) && tables.contains_key(b)
            && tables[b].contains_key(actor)),
{
    let after = with_entry(tables, directory_node, actor, host);
    assert forall|node: NodeId, other: Seq<char>|
        after.contains_key(node) && #[trigger] after[node].contains_key(
            other,
        ) implies is_directory_node(members.dom(), key_hash(other), node) by {
        if node == directory_node {
            if other != actor {
                assert(tables.contains_key(node) && tables[node].contains_key(other));
            }
        } else {
            assert(tables.contains_key(node) && tables[node].contains_key(other));
        }
    }
    if tables.contains_key(a) && tables[a].contains_key(actor) && tables.contains_key(b)
        && tables[b].contains_key(actor) {
        lemma_directory_node_unique(members.dom(), key_hash(actor), a, b);
    }
}

/// A registry as plain values.
pub struct RegistryView {
    /// The members of the cluster, by identifier.
    pub members: Map<NodeId, RemoteNode>,
    /// The directory entries kept here: for each actor, the node that hosts it.
    pub actors: Map<Seq<char>, NodeId>,
    /// The node this registry belongs to, once known.
    pub node_id: Option<NodeId>,
}

/// The registry of a node.
pub struct RemoteRegistry {
    nodes: RemoteNodes,
    actors: IdTable<NodeId>,
    system: Option<NodeId>,
}

impl RemoteRegistry {
    pub closed spec fn wf(&self) -> bool {
        self.nodes.wf() && self.actors.wf()
    }

    pub closed spec fn view(&self) -> RegistryView {
        RegistryView { members: self.nodes@, actors: self.actors@, node_id: self.system }
    }

    /// A registry that knows no members, keeps no entries and belongs to no
    /// node yet.
    pub fn new() -> (registry: Self)
        ensures
            registry.wf(),
            registry@ == (RegistryView {
                members: Map::empty(),
                actors: Map::empty(),
                node_id: None,
            }),
    {
        RemoteRegistry { nodes: RemoteNodes::new(), actors: IdTable::new(), system: None }
    }

    /// Tells the registry which node it belongs to.
    pub fn set_remote(&mut self, node_id: NodeId)
        ensures
            final(self)@ == (RegistryView { node_id: Some(node_id), ..old(self)@ }),
            old(self).wf() ==> final(self).wf(),
    {
        self.system = Some(node_id);
    }

    /// The node this registry belongs to, once known.
    pub fn node_id(&self) -> (node_id: Option<NodeId>)
        ensures
            node_id == self@.node_id,
    {
        self.system
    }

    /// The members, each once.
    pub fn get_nodes(&self) -> (nodes: Vec<RemoteNode>)
        requires
            self.wf(),
        ensures
            lists_members(nodes@, self@.members),
    {
        self.nodes.get_all()
    }

    /// Makes `node` a member.
    pub fn register_node(&mut self, node: RemoteNode)
        requires
            old(self).wf(),
        ensures
            final(self).wf(),
            final(self)@ == (RegistryView {
                members: old(self)@.members.insert(node.id, node),
                ..old(self)@
            }),
    {
        self.nodes.add(node);
    }

    /// Makes `node` a member and says which event to publish: that the
    /// node was added, where the system is part of a cluster.
    pub fn handle_register_node(&mut self, node: RemoteNode, system_is_remote: bool) -> (added:
        Option<NodeId>)
        requires
            old(self).wf(),
        ensures
            final(self).wf(),
            final(self)@ == (RegistryView {
                members: old(self)@.members.insert(node.id, node),
                ..old(self)@
            }),
            added == (if system_is_remote {
                Some(node.id)
            } else {
                None::<NodeId>
            }),
    {
        let added = if system_is_remote {
            Some(node.id)
        } else {
            None
        };
        self.register_node(node);
        added
    }

    /// Takes `nodes` as the membership, in place of what was known.
    pub fn update_nodes(&mut self, nodes: Vec<RemoteNode>)
        requires
            old(self).wf(),
        ensures
            final(self).wf(),
            final(self)@ == (RegistryView {
                members: with_nodes(Map::empty(), nodes@),
                ..old(self)@
            }),
    {
        self.nodes.update_nodes(nodes);
    }

    /// The nodes among `nodes` that have to be connected to before they can
    /// join: those that are neither this node nor known.
    pub fn unregistered_nodes(&self, nodes: &Vec<RemoteNode>) -> (fresh: Vec<RemoteNode>)
        requires
            self.wf(),
            self@.node_id.is_some(),
        ensures
            fresh@ == nodes_to_connect(nodes@, self@.members, self@.node_id.unwrap()),
    {
        let self_node = self.system.unwrap();
        let mut fresh: Vec<RemoteNode> = Vec::new();
        let mut i: usize = 0;
        while i < nodes.len()
            invariant
                self.wf(),
                i <= nodes@.len(),
                fresh@ == nodes_to_connect(nodes@.take(i as int), self.nodes@, self_node),
            decreases nodes@.len() - i,
        {
            proof {
                assert(nodes@.take(i + 1).drop_last() =~= nodes@.take(i as int));
            }
            if nodes[i].id != self_node && !self.nodes.is_registered(nodes[i].id) {
                fresh.push(nodes[i].duplicate());
            }
            i += 1;
        }
        proof {
            assert(nodes@.take(i as int) =~= nodes@);
        }
        fresh
    }

    /// Takes the nodes of a discovery into the membership, given those of
    /// them that were reached: first the reached nodes as their peers
    /// describe them, then each of `nodes` that is this node, was known, or
    /// was reached. Returns the nodes for which to publish that they were
    /// added: the identifiers of the latter, in order.
    pub fn register_nodes(&mut self, nodes: Vec<RemoteNode>, connected: Vec<RemoteNode>) -> (added:
        Vec<NodeId>)
        requires
            old(self).wf(),
            old(self)@.node_id.is_some(),
        ensures
            final(self).wf(),
            final(self)@ == (RegistryView {
                members: with_nodes(
                    with_nodes(old(self)@.members, connected@),
                    nodes_to_add(
                        nodes@,
                        old(self)@.members,
                        old(self)@.node_id.unwrap(),
                        connected@,
                    ),
                ),
                ..old(self)@
            }),
            added@ == nodes_to_add(
                nodes@,
                old(self)@.members,
                old(self)@.node_id.unwrap(),
                connected@,
            ).map_values(|n: RemoteNode| n.id),
    {
        let self_node = self.system.unwrap();
        let ghost known = self.nodes@;
        let mut joining: Vec<RemoteNode> = Vec::new();
        let mut added: Vec<NodeId> = Vec::new();
        let mut i: usize = 0;
        while i < nodes.len()
            invariant
                self.wf(),
                *self == *old(self),
                known == old(self).nodes@,
                i <= nodes@.len(),
                joining@ == nodes_to_add(nodes@.take(i as int), known, self_node, connected@),
                added@ == joining@.map_values(|n: RemoteNode| n.id),
            decreases nodes@.len() - i,
        {
            proof {
                assert(nodes@.take(i + 1).drop_last() =~= nodes@.take(i as int));
            }
            let id = nodes[i].id;
            if id == self_node || self.nodes.is_registered(id) || Self::contains_node(
                &connected,
                id,
            ) {
                joining.push(nodes[i].duplicate());
                added.push(id);
                proof {
                    assert(added@ =~= joining@.map_values(|n: RemoteNode| n.id));
                }
            }
            i += 1;
        }
        proof {
            assert(nodes@.take(i as int) =~= nodes@);
        }
        let mut j: usize = 0;
        while j < connected.len()
            invariant
                self.nodes.wf(),
                self.actors.wf(),
                self.actors == old(self).actors,
                self.system == old(self).system,
                j <= connected@.len(),
                self.nodes@ == with_nodes(known, connected@.take(j as int)),
            decreases connected@.len() - j,
        {
            proof {
                assert(connected@.take(j + 1).drop_last() =~= connected@.take(j as int));
            }
            self.nodes.add(connected[j].duplicate());
            j += 1;
        }
        proof {
            assert(connected@.take(j as int) =~= connected@);
        }
        let ghost mid = self.nodes@;
        let mut k: usize = 0;
        while k < joining.len()
            invariant
                self.nodes.wf(),
                self.actors.wf(),
                self.actors == old(self).actors,
                self.system == old(self).system,
                k <= joining@.len(),
                self.nodes@ == with_nodes(mid, joining@.take(k as int)),
            decreases joining@.len() - k,
        {
            proof {
                assert(joining@.take(k + 1).drop_last() =~= joining@.take(k as int));
            }
            self.nodes.add(joining[k].duplicate());
            k += 1;
        }
        proof {
            assert(joining@.take(k as int) =~= joining@);
        }
        added
    }

    fn contains_node(nodes: &Vec<RemoteNode>, id: NodeId) -> (found: bool)
        ensures
            found == has_node(nodes@, id),
    {
        let mut i: usize = 0;
        while i < nodes.len()
            invariant
                i <= nodes@.len(),
                forall|j: int| 0 <= j < i ==> (#[trigger] nodes@[j]).id != id,
            decreases nodes@.len() - i,
        {
            if nodes[i].id == id {
                return true;
            }
            i += 1;
        }
        false
    }

    /// The node that keeps the directory entries of `id`.
    pub fn assigned_registry_node(&self, id: &ActorId) -> (d: NodeId)
        requires
            self.wf(),
            self@.node_id.is_some(),
        ensures
            keeps_directory_of(self@.members, self@.node_id.unwrap(), id@, d),
    {
        match self.nodes.get_by_key(id.as_str()) {
            Some(node) => {
                assert(self@.members.dom().contains(node.id));
                node.id
            },
            None => self.system.unwrap(),
        }
    }

    /// Records where the actor of `message` lives. With a node given, the
    /// entry is written here. Without, the actor lives on this node, and
    /// the entry is written here if this node keeps the directory entries
    /// of the actor and sent to the node that does otherwise.
    pub fn register_actor(&mut self, message: RegisterActor) -> (outcome: RegisterActorOutcome)
        requires
            old(self).wf(),
        ensures
            final(self).wf(),
            final(self)@.members == old(self)@.members,
            final(self)@.node_id == old(self)@.node_id,
            match (message.node_id, old(self)@.node_id) {
                (Some(node_id), _) => outcome is Registered && final(self)@.actors == old(
                    self,
                )@.actors.insert(message.actor_id@, node_id),
                (None, None) => outcome is Ignored && final(self)@.actors == old(self)@.actors,
                (None, Some(own)) => if keeps_directory_of(
                    old(self)@.members,
                    own,
                    message.actor_id@,
                    own,
                ) {
                    outcome is Registered && final(self)@.actors == old(self)@.actors.insert(
                        message.actor_id@,
                        own,
                    )
                } else {
                    &&& final(self)@.actors == old(self)@.actors
                    &&& outcome is Forward
                    &&& keeps_directory_of(
                        old(self)@.members,
                        own,
                        message.actor_id@,
                        outcome->directory_node,
                    )
                    &&& outcome->event@.node_id == own
                    &&& outcome->event@.actor_id == message.actor_id@
                    &&& outcome->event@.message_id == Seq::<char>::empty()
                },
            },
    {
        match message.node_id {
            Some(node_id) => {
                let _ = self.actors.insert(message.actor_id, node_id);
                RegisterActorOutcome::Registered
            },
            None => match self.system {
                None => RegisterActorOutcome::Ignored,
                Some(own) => {
                    let assigned = self.assigned_registry_node(&message.actor_id);
                    proof {
                        if self@.members != Map::<NodeId, RemoteNode>::empty() && assigned != own
                            && keeps_directory_of(self@.members, own, message.actor_id@, own) {
                            lemma_directory_node_unique(
                                self@.members.dom(),
                                key_hash(message.actor_id@),
                                assigned,
                                own,
                            );
                        }
                    }
                    if assigned == own {
                        let _ = self.actors.insert(message.actor_id, own);
                        RegisterActorOutcome::Registered
                    } else {
                        RegisterActorOutcome::Forward {
                            directory_node: assigned,
                            event: ActorAddress {
                                message_id: String::new(),
                                node_id: own,
                                actor_id: message.actor_id,
                            },
                        }
                    }
                },
            },
        }
    }

    /// Says how to find the node that hosts `id`: from this node's table
    /// where it has an entry or keeps the directory entries of `id`, and by
    /// asking the directory node otherwise.
    pub fn get_actor_node(&self, id: &ActorId) -> (lookup: ActorNodeLookup)
        requires
            self.wf(),
            self@.node_id.is_some(),
        ensures
            ({
                let own = self@.node_id.unwrap();
                if self@.actors.contains_key(id@) {
                    lookup == ActorNodeLookup::Answer(Some(self@.actors[id@]))
                } else if keeps_directory_of(self@.members, own, id@, own) {
                    lookup == ActorNodeLookup::Answer(None)
                } else {
                    lookup is AskDirectory && keeps_directory_of(
                        self@.members,
                        own,
                        id@,
                        lookup->directory_node,
                    )
                }
            }),
    {
        let own = self.system.unwrap();
        let assigned = self.assigned_registry_node(id);
        proof {
            if self@.members != Map::<NodeId, RemoteNode>::empty() && assigned != own
                && keeps_directory_of(self@.members, own, id@, own) {
                lemma_directory_node_unique(self@.members.dom(), key_hash(id@), assigned, own);
            }
        }
        match self.actors.get(id) {
            Some(node) => ActorNodeLookup::Answer(Some(*node)),
            None => if assigned == own {
                ActorNodeLookup::Answer(None)
            } else {
                ActorNodeLookup::AskDirectory { directory_node: assigned }
            },
        }
    }

    /// The question to send to the directory node under the request
    /// identifier `request_id`.
    pub fn find_actor_request(request_id: RequestId, actor_id: ActorId, trace_id: String) -> (find:
        FindActor)
        ensures
            find.message_id@ == uuid_text(request_id),
            uuid_parse(find.message_id@) == Some(request_id),
            find.actor_id == actor_id,
            find.trace_id == trace_id,
    {
        FindActor { message_id: request_id_text(request_id), actor_id, trace_id }
    }

    /// Answers a question as the directory node: the node this table has
    /// for the actor, or zero where it has none, under the identifier of
    /// the question.
    pub fn answer_find_actor(&self, find: &FindActor) -> (address: ActorAddress)
        requires
            self.wf(),
        ensures
            address.message_id == find.message_id,
            address.actor_id == find.actor_id,
            address.node_id == (if self@.actors.contains_key(find.actor_id@) {
                self@.actors[find.actor_id@]
            } else {
                0
            }),
    {
        let node_id = match self.actors.get(&find.actor_id) {
            Some(node) => *node,
            None => 0,
        };
        ActorAddress {
            message_id: find.message_id.clone(),
            node_id,
            actor_id: find.actor_id.clone(),
        }
    }

    /// The messages with which to register the locally scheduled actors
    /// `actor_ids` anew after a change in the cluster: one for each, in
    /// order, without a node.
    pub fn on_cluster_event(actor_ids: Vec<ActorId>) -> (messages: Vec<RegisterActor>)
        ensures
            messages@.len() == actor_ids@.len(),
            forall|i: int|
                0 <= i < messages@.len() ==> (#[trigger] messages@[i]).actor_id@ == actor_ids@[i]@
                    && messages@[i].node_id.is_none(),
    {
        let mut messages: Vec<RegisterActor> = Vec::new();
        let mut i: usize = 0;
        while i < actor_ids.len()
            invariant
                i <= actor_ids@.len(),
                messages@.len() == i,
                forall|j: int|
                    0 <= j < i ==> (#[trigger] messages@[j]).actor_id@ == actor_ids@[j]@
                        && messages@[j].node_id.is_none(),
            decreases actor_ids@.len() - i,
        {
            messages.push(RegisterActor::new(actor_ids[i].clone(), None));
            i += 1;
        }
        messages
    }
}

/// What the answer to a lookup says: the hosting node, or nothing where the
/// directory knows none (a node identifier of zero).
pub open spec fn lookup_result(response: Option<RemoteResponse>) -> Result<
    Option<NodeId>,
    ActorRefErr,
> {
    match response {
        None => Err(ActorRefErr::ActorUnavailable),
        Some(RemoteResponse::Failure(_)) => Err(ActorRefErr::ActorUnavailable),
        Some(RemoteResponse::Success(bytes)) => match ActorAddress::decoding(bytes@) {
            None => Err(ActorRefErr::DeserializationErr),
            Some(address) => if address.node_id == 0 {
                Ok(None)
            } else {
                Ok(Some(address.node_id))
            },
        },
    }
}

/// Reads the answer to a lookup. No answer in time, or a failure reported
/// by the peer, gives `ActorUnavailable`; an answer that cannot be read
/// gives `DeserializationErr`.
pub fn find_actor_result(response: Option<RemoteResponse>) -> (r: Result<
    Option<NodeId>,
    ActorRefErr,
>)
    ensures
        r == lookup_result(response),
{
    match response {
        None => Err(ActorRefErr::ActorUnavailable),
        Some(RemoteResponse::Failure(_)) => Err(ActorRefErr::ActorUnavailable),
        Some(RemoteResponse::Success(bytes)) => match ActorAddress::parse_from_bytes(
            bytes.as_slice(),
        ) {
            Err(_) => Err(ActorRefErr::DeserializationErr),
            Ok(address) => if address.node_id == 0 {
                Ok(None)
            } else {
                Ok(Some(address.node_id))
            },
        },
    }
}

} // verus!

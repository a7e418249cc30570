//! The shard host of a node: which shards it hosts, which it knows to be
//! hosted elsewhere, and the requests that wait for a shard to get a place.

use vstd::prelude::*;
use std::collections::HashMap;
use std::collections::VecDeque;
use crate::actor::refs::LocalActorRef;
use crate::actor::table::ActorId;
use crate::remote::cluster::node::NodeId;
use crate::remote::cluster::sharding::request::EntityRequest;
use crate::remote::hash::{hash_key, key_hash};

verus! {

broadcast use vstd::std_specs::hash::group_hash_axioms;

/// The number of a shard.
pub type ShardId = u32;

/// The shard of the entity `actor_id` among `shard_count` shards: its key
/// hash modulo the number of shards.
pub open spec fn shard_of(actor_id: Seq<char>, shard_count: u32) -> ShardId
    recommends
        shard_count > 0,
{
    (key_hash(actor_id) % (shard_count as u64)) as u32
}

/// Places entities in shards.
pub struct ShardAllocator {
    shard_count: u32,
}

impl ShardAllocator {
    pub closed spec fn count(&self) -> u32 {
        self.shard_count
    }

    /// An allocator over `shard_count` shards; nothing where `shard_count`
    /// is zero.
    pub fn new(shard_count: u32) -> (allocator: Option<Self>)
        ensures
            match allocator {
                Some(a) => shard_count > 0 && a.count() == shard_count,
                None => shard_count == 0,
            },
    {
        if shard_count == 0 {
            None
        } else {
            Some(ShardAllocator { shard_count })
        }
    }

    /// The number of shards.
    pub fn shard_count(&self) -> (n: u32)
        ensures
            n == self.count(),
    {
        self.shard_count
    }

    /// The shard of the entity `actor_id`.
    pub fn allocate(&self, actor_id: &ActorId) -> (shard_id: ShardId)
        requires
            self.count() > 0,
        ensures
            shard_id == shard_of(actor_id@, self.count()),
            shard_id < self.count(),
    {
        (hash_key(actor_id.as_str()) % (self.shard_count as u64)) as u32
    }
}

/// A shard hosted on this node.
#[derive(Debug)]
pub enum ShardState {
    /// The shard actor is starting. Requests wait in the buffer, oldest
    /// first.
    Starting { request_buffer: Vec<EntityRequest> },
    /// The shard actor is running.
    Ready(LocalActorRef),
}

/// A [`ShardState`] as plain values.
pub enum ShardStateView {
    Starting(Seq<EntityRequest>),
    Ready(LocalActorRef),
}

impl ShardState {
    pub open spec fn view(&self) -> ShardStateView {
        match self {
            ShardState::Starting { request_buffer } => ShardStateView::Starting(request_buffer@),
            ShardState::Ready(actor) => ShardStateView::Ready(*actor),
        }
    }
}

impl ShardStateView {
    /// The state with `request` behind those that wait, for a starting
    /// shard; a running shard holds no requests.
    pub open spec fn with_request(self, request: EntityRequest) -> ShardStateView {
        match self {
            ShardStateView::Starting(buffer) => ShardStateView::Starting(buffer.push(request)),
            ShardStateView::Ready(actor) => self,
        }
    }

    /// The requests that wait in the state.
    pub open spec fn buffer(self) -> Seq<EntityRequest> {
        match self {
            ShardStateView::Starting(buffer) => buffer,
            ShardStateView::Ready(_) => Seq::empty(),
        }
    }
}

/// A request on its way to a shard actor of this node.
#[derive(Debug)]
pub struct ShardDelivery {
    pub shard: LocalActorRef,
    pub request: EntityRequest,
}

/// Where a request went.
#[derive(Debug)]
pub enum RequestRoute {
    /// To the running shard actor on this node.
    DeliverLocal { shard_id: ShardId, delivery: ShardDelivery },
    /// Into the buffer of the shard, which is starting on this node.
    Buffered { shard_id: ShardId },
    /// To the node that hosts the shard.
    SendRemote { shard_id: ShardId, node_id: NodeId, request: EntityRequest },
    /// Into the queue of the shard, which has no place yet: the coordinator
    /// is to be asked for one.
    AllocateShard { shard_id: ShardId },
    /// Into the queue of requests that wait for a coordinator to be known.
    AwaitLeader,
}

/// What follows from the allocation of a shard.
#[derive(Debug)]
pub enum ShardAllocation {
    /// The shard is new on this node: its actor is to be started. The
    /// requests that waited for the shard now wait in its buffer.
    StartShard { shard_id: ShardId },
    /// The shard is starting on this node already. The requests that waited
    /// now wait in its buffer.
    Buffered { shard_id: ShardId },
    /// The shard runs on this node: the requests that waited go to its
    /// actor, oldest first.
    DeliverLocal { shard: LocalActorRef, requests: Vec<EntityRequest> },
    /// The shard is hosted by `node_id`: the requests that waited go there,
    /// oldest first.
    SendRemote { node_id: NodeId, requests: Vec<EntityRequest> },
}

/// A shard host as plain values.
pub struct HostView {
    /// The node the host runs on.
    pub node_id: NodeId,
    pub shard_count: u32,
    /// The shards hosted here.
    pub hosted: Map<ShardId, ShardStateView>,
    /// The shards known to be hosted elsewhere, with the node of each.
    pub remote: Map<ShardId, NodeId>,
    /// For shards without a place, the requests that wait for one.
    pub pending_shard: Map<ShardId, Seq<EntityRequest>>,
    /// The requests that wait for a coordinator to be known.
    pub pending_leader: Seq<EntityRequest>,
}

impl HostView {
    /// The requests that wait for `shard` to get a place.
    pub open spec fn waiting_for(self, shard: ShardId) -> Seq<EntityRequest> {
        if self.pending_shard.contains_key(shard) {
            self.pending_shard[shard]
        } else {
            Seq::empty()
        }
    }

    /// Where `request` goes: to the shard on this node if the shard is
    /// hosted here, to the hosting node if it is known to be hosted
    /// elsewhere, and into a queue otherwise.
    pub open spec fn route_of(self, request: EntityRequest, leader_known: bool) -> RequestRoute {
        let shard_id = shard_of(request.actor_id@, self.shard_count);
        if self.hosted.contains_key(shard_id) {
            match self.hosted[shard_id] {
                ShardStateView::Starting(_) => RequestRoute::Buffered { shard_id },
                ShardStateView::Ready(shard) => RequestRoute::DeliverLocal {
                    shard_id,
                    delivery: ShardDelivery { shard, request },
                },
            }
        } else if self.remote.contains_key(shard_id) {
            RequestRoute::SendRemote { shard_id, node_id: self.remote[shard_id], request }
        } else if leader_known {
            RequestRoute::AllocateShard { shard_id }
        } else {
            RequestRoute::AwaitLeader
        }
    }

    /// The host after `request` has been routed: where the request was not
    /// handed on, it waits behind the others of its buffer or queue.
    pub open spec fn after_request(self, request: EntityRequest, leader_known: bool) -> HostView {
        let shard_id = shard_of(request.actor_id@, self.shard_count);
        if self.hosted.contains_key(shard_id) {
            HostView {
                hosted: self.hosted.insert(shard_id, self.hosted[shard_id].with_request(request)),
                ..self
            }
        } else if self.remote.contains_key(shard_id) {
            self
        } else if leader_known {
            HostView {
                pending_shard: self.pending_shard.insert(
                    shard_id,
                    self.waiting_for(shard_id).push(request),
                ),
                ..self
            }
        } else {
            HostView { pending_leader: self.pending_leader.push(request), ..self }
        }
    }

    /// The host after it has learnt that `shard_id` is placed on `node_id`.
    /// Nothing waits for the shard any longer. A shard placed here that is
    /// not hosted yet becomes a starting shard; the requests that waited
    /// join the buffer of a starting shard. A shard placed elsewhere and not
    /// hosted here is recorded as hosted there.
    pub open spec fn after_allocated(self, shard_id: ShardId, node_id: NodeId) -> HostView {
        let waiting = self.waiting_for(shard_id);
        let pending_shard = self.pending_shard.remove(shard_id);
        if self.hosted.contains_key(shard_id) {
            match self.hosted[shard_id] {
                ShardStateView::Starting(buffer) => HostView {
                    hosted: self.hosted.insert(shard_id, ShardStateView::Starting(buffer + waiting)),
                    pending_shard,
                    ..self
                },
                ShardStateView::Ready(_) => HostView { pending_shard, ..self },
            }
        } else if node_id == self.node_id {
            HostView {
                hosted: self.hosted.insert(shard_id, ShardStateView::Starting(waiting)),
                remote: self.remote.remove(shard_id),
                pending_shard,
                ..self
            }
        } else {
            HostView { remote: self.remote.insert(shard_id, node_id), pending_shard, ..self }
        }
    }

    /// The requests that the allocation of `shard_id` to `node_id` sets
    /// free: those that waited for the shard, unless they now wait in the
    /// buffer of a starting shard.
    pub open spec fn released_by_allocated(self, shard_id: ShardId, node_id: NodeId) -> Seq<
        EntityRequest,
    > {
        if self.hosted.contains_key(shard_id) {
            match self.hosted[shard_id] {
                ShardStateView::Starting(_) => Seq::empty(),
                ShardStateView::Ready(_) => self.waiting_for(shard_id),
            }
        } else if node_id == self.node_id {
            Seq::empty()
        } else {
            self.waiting_for(shard_id)
        }
    }

    /// The host after the actor `shard` of the hosted shard `shard_id` has
    /// started. A shard that is not hosted stays absent.
    pub open spec fn after_ready(self, shard_id: ShardId, shard: LocalActorRef) -> HostView {
        if self.hosted.contains_key(shard_id) {
            HostView { hosted: self.hosted.insert(shard_id, ShardStateView::Ready(shard)), ..self }
        } else {
            self
        }
    }

    /// The requests in the buffer of the hosted shard `shard_id`, oldest
    /// first.
    pub open spec fn buffered_in(self, shard_id: ShardId) -> Seq<EntityRequest> {
        if self.hosted.contains_key(shard_id) {
            self.hosted[shard_id].buffer()
        } else {
            Seq::empty()
        }
    }

    /// The host after the shard `shard_id` was lost: the shard is absent.
    pub open spec fn after_stopped(self, shard_id: ShardId) -> HostView {
        HostView { hosted: self.hosted.remove(shard_id), ..self }
    }

    /// The host after the requests that waited for a coordinator have been
    /// taken out.
    pub open spec fn after_leader_known(self) -> HostView {
        HostView { pending_leader: Seq::empty(), ..self }
    }

    /// Whether `request` waits somewhere in the host.
    pub open spec fn holds(self, request: EntityRequest) -> bool {
        ||| exists|shard: ShardId| #[trigger]
            self.hosted.contains_key(shard) && self.hosted[shard].buffer().contains(request)
        ||| exists|shard: ShardId| #[trigger]
            self.pending_shard.contains_key(shard) && self.pending_shard[shard].contains(request)
        ||| self.pending_leader.contains(request)
    }

    /// Whether the host hosts only shards that `allocation` places on its
    /// node.
    pub open spec fn follows(self, allocation: Map<ShardId, NodeId>) -> bool {
        forall|shard: ShardId| #[trigger]
            self.hosted.contains_key(shard) ==> allocation.contains_key(shard)
                && allocation[shard] == self.node_id
    }
}

/// Whether the route hands `request` on.
pub open spec fn route_carries(route: RequestRoute, request: EntityRequest) -> bool {
    match route {
        RequestRoute::DeliverLocal { delivery, .. } => delivery.request == request,
        RequestRoute::SendRemote { request: sent, .. } => sent == request,
        _ => false,
    }
}

/// A shard has one host: of two hosts on different nodes that follow the
/// same allocation, at most one hosts a given shard.
pub proof fn lemma_shard_exclusive(
    a: HostView,
    b: HostView,
    allocation: Map<ShardId, NodeId>,
    shard: ShardId,
)
    requires
        a.follows(allocation),
        b.follows(allocation),
        a.node_id != b.node_id,
    ensures
        !(a.hosted.contains_key(shard) && b.hosted.contains_key(shard)),
{
}

/// A host that follows an allocation follows every allocation that places
/// the same shards on the same nodes and more shards besides.
pub proof fn lemma_follows_grown(
    host: HostView,
    allocation: Map<ShardId, NodeId>,
    grown: Map<ShardId, NodeId>,
)
    requires
        host.follows(allocation),
        forall|shard: ShardId| #[trigger]
            allocation.contains_key(shard) ==> grown.contains_key(shard) && grown[shard]
                == allocation[shard],
    ensures
        host.follows(grown),
{
    assert forall|shard: ShardId| #[trigger] host.hosted.contains_key(shard) implies grown.contains_key(
        shard,
    ) && grown[shard] == host.node_id by {
        assert(allocation.contains_key(shard));
    }
}

/// A host that follows an allocation goes on following it: routing a
/// request, the start and the loss of a shard, and learning of a
/// coordinator add no shard to those hosted, and learning of the allocation
/// of a shard adds at most that shard, on the node the allocation names.
pub proof fn lemma_follows_preserved(
    host: HostView,
    allocation: Map<ShardId, NodeId>,
    request: EntityRequest,
    leader_known: bool,
    shard: ShardId,
    node_id: NodeId,
    actor: LocalActorRef,
)
    requires
        host.follows(allocation),
    ensures
        host.after_request(request, leader_known).follows(allocation),
        host.after_ready(shard, actor).follows(allocation),
        host.after_stopped(shard).follows(allocation),
        host.after_leader_known().follows(allocation),
        allocation.contains_key(shard) && allocation[shard] == node_id ==> host.after_allocated(
            shard,
            node_id,
        ).follows(allocation),
{
    let a = host.after_request(request, leader_known);
    assert forall|s: ShardId| #[trigger] a.hosted.contains_key(s) implies host.hosted.contains_key(
        s,
    ) by {}
    let b = host.after_ready(shard, actor);
    assert forall|s: ShardId| #[trigger] b.hosted.contains_key(s) implies host.hosted.contains_key(
        s,
    ) by {}
    if allocation.contains_key(shard) && allocation[shard] == node_id {
        let c = host.after_allocated(shard, node_id);
        assert forall|s: ShardId| #[trigger] c.hosted.contains_key(s) implies allocation.contains_key(
            s,
        ) && allocation[s] == c.node_id by {
            if s != shard {
                assert(host.hosted.contains_key(s));
            }
        }
    }
}

/// A request that is routed is handed on or waits: it is not dropped.
pub proof fn lemma_request_kept(host: HostView, request: EntityRequest, leader_known: bool)
    ensures
        route_carries(host.route_of(request, leader_known), request) || host.after_request(
            request,
            leader_known,
        ).holds(request),
{
    let shard = shard_of(request.actor_id@, host.shard_count);
    let after = host.after_request(request, leader_known);
    if host.hosted.contains_key(shard) {
        match host.hosted[shard] {
            ShardStateView::Starting(buffer) => {
                assert(buffer.push(request)[buffer.len() as int] == request);
                assert(after.hosted.contains_key(shard) && after.hosted[shard].buffer().contains(
                    request,
                ));
            },
            ShardStateView::Ready(_) => {},
        }
    } else if host.remote.contains_key(shard) {
    } else if leader_known {
        let queue = host.waiting_for(shard);
        assert(queue.push(request)[queue.len() as int] == request);
        assert(after.pending_shard.contains_key(shard) && after.pending_shard[shard].contains(
            request,
        ));
    } else {
        assert(host.pending_leader.push(request)[host.pending_leader.len() as int] == request);
    }
}

/// A request that waits is not lost when another is routed.
pub proof fn lemma_waiting_kept_by_request(
    host: HostView,
    waiting: EntityRequest,
    request: EntityRequest,
    leader_known: bool,
)
    requires
        host.holds(waiting),
    ensures
        host.after_request(request, leader_known).holds(waiting),
{
    let shard = shard_of(request.actor_id@, host.shard_count);
    let after = host.after_request(request, leader_known);
    if exists|s: ShardId| #[trigger]
        host.hosted.contains_key(s) && host.hosted[s].buffer().contains(waiting) {
        let s = choose|s: ShardId| #[trigger]
            host.hosted.contains_key(s) && host.hosted[s].buffer().contains(waiting);
        let buffer = host.hosted[s].buffer();
        let i = buffer.index_of(waiting);
        if s == shard {
            assert(buffer.push(request)[i] == waiting);
        }
        assert(after.hosted.contains_key(s) && after.hosted[s].buffer().contains(waiting));
    } else if exists|s: ShardId| #[trigger]
        host.pending_shard.contains_key(s) && host.pending_shard[s].contains(waiting) {
        let s = choose|s: ShardId| #[trigger]
            host.pending_shard.contains_key(s) && host.pending_shard[s].contains(waiting);
        let queue = host.pending_shard[s];
        let i = queue.index_of(waiting);
        if s == shard {
            assert(queue.push(request)[i] == waiting);
        }
        assert(after.pending_shard.contains_key(s) && after.pending_shard[s].contains(waiting));
    } else {
        let i = host.pending_leader.index_of(waiting);
        assert(host.pending_leader.push(request)[i] == waiting);
    }
}

/// A request that waits when a shard is allocated still waits afterwards
/// or is set free for delivery.
pub proof fn lemma_waiting_kept_by_allocation(
    host: HostView,
    waiting: EntityRequest,
    shard_id: ShardId,
    node_id: NodeId,
)
    requires
        host.holds(waiting),
    ensures
        host.after_allocated(shard_id, node_id).holds(waiting) || host.released_by_allocated(
            shard_id,
            node_id,
        ).contains(waiting),
{
    let after = host.after_allocated(shard_id, node_id);
    let queue = host.waiting_for(shard_id);
    if exists|s: ShardId| #[trigger]
        host.hosted.contains_key(s) && host.hosted[s].buffer().contains(waiting) {
        let s = choose|s: ShardId| #[trigger]
            host.hosted.contains_key(s) && host.hosted[s].buffer().contains(waiting);
        let buffer = host.hosted[s].buffer();
        let i = buffer.index_of(waiting);
        if s == shard_id {
            assert((buffer + queue)[i] == waiting);
        }
        assert(after.hosted.contains_key(s) && after.hosted[s].buffer().contains(waiting));
    } else if exists|s: ShardId| #[trigger]
        host.pending_shard.contains_key(s) && host.pending_shard[s].contains(waiting) {
        let s = choose|s: ShardId| #[trigger]
            host.pending_shard.contains_key(s) && host.pending_shard[s].contains(waiting);
        if s == shard_id {
            let i = queue.index_of(waiting);
            if host.hosted.contains_key(shard_id) {
                match host.hosted[shard_id] {
                    ShardStateView::Starting(buffer) => {
                        assert((buffer + queue)[buffer.len() + i] == waiting);
                        assert(after.hosted.contains_key(shard_id) && after.hosted[shard_id].buffer().contains(
                            waiting,
                        ));
                    },
                    ShardStateView::Ready(_) => {},
                }
            } else if node_id == host.node_id {
                assert(after.hosted.contains_key(shard_id) && after.hosted[shard_id].buffer().contains(
                    waiting,
                ));
            }
        } else {
            assert(after.pending_shard.contains_key(s) && after.pending_shard[s].contains(
                waiting,
            ));
        }
    } else {
    }
}

/// A request that waits when a shard starts, a shard is lost or a
/// coordinator becomes known still waits afterwards or is handed out: to
/// the started shard, to be failed, or to be routed again.
pub proof fn lemma_waiting_kept(host: HostView, waiting: EntityRequest, shard_id: ShardId, shard: LocalActorRef)
    requires
        host.holds(waiting),
    ensures
        host.after_ready(shard_id, shard).holds(waiting) || host.buffered_in(shard_id).contains(
            waiting,
        ),
        host.after_stopped(shard_id).holds(waiting) || host.buffered_in(shard_id).contains(
            waiting,
        ),
        host.after_leader_known().holds(waiting) || host.pending_leader.contains(waiting),
{
    let ready = host.after_ready(shard_id, shard);
    let stopped = host.after_stopped(shard_id);
    let known = host.after_leader_known();
    if exists|s: ShardId| #[trigger]
        host.hosted.contains_key(s) && host.hosted[s].buffer().contains(waiting) {
        let s = choose|s: ShardId| #[trigger]
            host.hosted.contains_key(s) && host.hosted[s].buffer().contains(waiting);
        if s != shard_id {
            assert(ready.hosted.contains_key(s) && ready.hosted[s].buffer().contains(waiting));
            assert(stopped.hosted.contains_key(s) && stopped.hosted[s].buffer().contains(waiting));
        }
        assert(known.hosted.contains_key(s) && known.hosted[s].buffer().contains(waiting));
    } else if exists|s: ShardId| #[trigger]
        host.pending_shard.contains_key(s) && host.pending_shard[s].contains(waiting) {
        let s = choose|s: ShardId| #[trigger]
            host.pending_shard.contains_key(s) && host.pending_shard[s].contains(waiting);
        assert(ready.pending_shard.contains_key(s) && ready.pending_shard[s].contains(waiting));
        assert(stopped.pending_shard.contains_key(s) && stopped.pending_shard[s].contains(waiting));
        assert(known.pending_shard.contains_key(s) && known.pending_shard[s].contains(waiting));
    } else {
    }
}

/// The shard host of a node.
pub struct ShardHost {
    node_id: NodeId,
    allocator: ShardAllocator,
    hosted_shards: HashMap<ShardId, ShardState>,
    remote_shards: HashMap<ShardId, NodeId>,
    requests_pending_shard_allocation: HashMap<ShardId, Vec<EntityRequest>>,
    requests_pending_leader_allocation: VecDeque<EntityRequest>,
}

impl ShardHost {
    /// There is at least one shard.
    pub closed spec fn wf(&self) -> bool {
        self.allocator.count() > 0
    }

    pub closed spec fn view(&self) -> HostView {
        HostView {
            node_id: self.node_id,
            shard_count: self.allocator.count(),
            hosted: Map::new(
                |s: ShardId| self.hosted_shards@.contains_key(s),
                |s: ShardId| self.hosted_shards@[s]@,
            ),
            remote: self.remote_shards@,
            pending_shard: Map::new(
                |s: ShardId| self.requests_pending_shard_allocation@.contains_key(s),
                |s: ShardId| self.requests_pending_shard_allocation@[s]@,
            ),
            pending_leader: self.requests_pending_leader_allocation@,
        }
    }

    /// A host on `node_id` that hosts nothing, knows of no shard elsewhere
    /// and holds no request.
    pub fn new(node_id: NodeId, allocator: ShardAllocator) -> (host: Self)
        requires
            allocator.count() > 0,
        ensures
            host.wf(),
            host@ == (HostView {
                node_id,
                shard_count: allocator.count(),
                hosted: Map::empty(),
                remote: Map::empty(),
                pending_shard: Map::empty(),
                pending_leader: Seq::empty(),
            }),
    {
        let host = ShardHost {
            node_id,
            allocator,
            hosted_shards: HashMap::new(),
            remote_shards: HashMap::new(),
            requests_pending_shard_allocation: HashMap::new(),
            requests_pending_leader_allocation: VecDeque::new(),
        };
        proof {
            assert(host@.hosted =~= Map::empty());
            assert(host@.pending_shard =~= Map::empty());
        }
        host
    }

    /// Hands `message` to the shard in `shard_state`: into the buffer of a
    /// starting shard, behind those that wait there, or on to the actor of a
    /// running shard.
    pub fn handle_request(&self, message: EntityRequest, shard_state: &mut ShardState) -> (delivery:
        Option<ShardDelivery>)
        ensures
            final(shard_state)@ == old(shard_state)@.with_request(message),
            delivery == (match old(shard_state)@ {
                ShardStateView::Starting(_) => None::<ShardDelivery>,
                ShardStateView::Ready(shard) => Some(ShardDelivery { shard, request: message }),
            }),
    {
        match shard_state {
            ShardState::Starting { request_buffer } => {
                request_buffer.push(message);
                None
            },
            ShardState::Ready(actor) => Some(
                ShardDelivery { shard: actor.duplicate(), request: message },
            ),
        }
    }

    /// Routes `message` by the shard of its entity, as [`HostView::route_of`]
    /// says; `leader_known` says whether a coordinator is known.
    pub fn handle(&mut self, message: EntityRequest, leader_known: bool) -> (route: RequestRoute)
        requires
            old(self).wf(),
        ensures
            final(self).wf(),
            final(self)@ == old(self)@.after_request(message, leader_known),
            route == old(self)@.route_of(message, leader_known),
    {
        let shard_id = self.allocator.allocate(&message.actor_id);
        match self.hosted_shards.remove(&shard_id) {
            Some(state) => {
                let mut state = state;
                let delivery = self.handle_request(message, &mut state);
                self.hosted_shards.insert(shard_id, state);
                proof {
                    assert(self@.hosted =~= old(self)@.hosted.insert(
                        shard_id,
                        old(self)@.hosted[shard_id].with_request(message),
                    ));
                    assert(self@.pending_shard =~= old(self)@.pending_shard);
                }
                match delivery {
                    Some(delivery) => RequestRoute::DeliverLocal { shard_id, delivery },
                    None => RequestRoute::Buffered { shard_id },
                }
            },
            None => {
                proof {
                    assert(self@.hosted =~= old(self)@.hosted);
                }
                let remote = match self.remote_shards.get(&shard_id) {
                    Some(node_id) => Some(*node_id),
                    None => None,
                };
                match remote {
                    Some(node_id) => RequestRoute::SendRemote {
                        shard_id,
                        node_id,
                        request: message,
                    },
                    None => if leader_known {
                        let mut queue = match self.requests_pending_shard_allocation.remove(
                            &shard_id,
                        ) {
                            Some(queue) => queue,
                            None => Vec::new(),
                        };
                        queue.push(message);
                        self.requests_pending_shard_allocation.insert(shard_id, queue);
                        proof {
                            assert(self@.hosted =~= old(self)@.hosted);
                            assert(self@.pending_shard =~= old(self)@.pending_shard.insert(
                                shard_id,
                                old(self)@.waiting_for(shard_id).push(message),
                            ));
                        }
                        RequestRoute::AllocateShard { shard_id }
                    } else {
                        self.requests_pending_leader_allocation.push_back(message);
                        proof {
                            assert(self@.pending_shard =~= old(self)@.pending_shard);
                        }
                        RequestRoute::AwaitLeader
                    },
                }
            },
        }
    }

    /// Takes note that `shard_id` is placed on `node_id` and moves on the
    /// requests that waited for it, as [`HostView::after_allocated`] and
    /// [`HostView::released_by_allocated`] say.
    pub fn shard_allocated(&mut self, shard_id: ShardId, node_id: NodeId) -> (allocation:
        ShardAllocation)
        requires
            old(self).wf(),
        ensures
            final(self).wf(),
            final(self)@ == old(self)@.after_allocated(shard_id, node_id),
            ({
                let before = old(self)@;
                let released = before.released_by_allocated(shard_id, node_id);
                if before.hosted.contains_key(shard_id) {
                    match before.hosted[shard_id] {
                        ShardStateView::Starting(_) => allocation == (ShardAllocation::Buffered {
                            shard_id,
                        }),
                        ShardStateView::Ready(shard) => allocation is DeliverLocal
                            && allocation->DeliverLocal_shard == shard
                            && allocation->DeliverLocal_requests@ == released,
                    }
                } else if node_id == before.node_id {
                    allocation == (ShardAllocation::StartShard { shard_id })
                } else {
                    allocation is SendRemote && allocation->SendRemote_node_id == node_id
                        && allocation->SendRemote_requests@ == released
                }
            }),
    {
        let waiting = match self.requests_pending_shard_allocation.remove(&shard_id) {
            Some(queue) => queue,
            None => Vec::new(),
        };
        proof {
            assert(waiting@ == old(self)@.waiting_for(shard_id));
            assert(self@.pending_shard =~= old(self)@.pending_shard.remove(shard_id));
            assert(self@.hosted =~= old(self)@.hosted);
        }
        match self.hosted_shards.remove(&shard_id) {
            Some(ShardState::Starting { request_buffer }) => {
                let mut request_buffer = request_buffer;
                let mut waiting = waiting;
                request_buffer.append(&mut waiting);
                self.hosted_shards.insert(shard_id, ShardState::Starting { request_buffer });
                proof {
                    assert(self@.pending_shard =~= old(self)@.pending_shard.remove(shard_id));
                    assert(self@.hosted =~= old(self)@.after_allocated(shard_id, node_id).hosted);
                }
                ShardAllocation::Buffered { shard_id }
            },
            Some(ShardState::Ready(actor)) => {
                let shard = actor.duplicate();
                self.hosted_shards.insert(shard_id, ShardState::Ready(actor));
                proof {
                    assert(self@.pending_shard =~= old(self)@.pending_shard.remove(shard_id));
                    assert(self@.hosted =~= old(self)@.hosted);
                }
                ShardAllocation::DeliverLocal { shard, requests: waiting }
            },
            None => {
                if node_id == self.node_id {
                    self.hosted_shards.insert(
                        shard_id,
                        ShardState::Starting { request_buffer: waiting },
                    );
                    self.remote_shards.remove(&shard_id);
                    proof {
                        assert(self@.pending_shard =~= old(self)@.pending_shard.remove(shard_id));
                        assert(self@.hosted =~= old(self)@.after_allocated(
                            shard_id,
                            node_id,
                        ).hosted);
                    }
                    ShardAllocation::StartShard { shard_id }
                } else {
                    self.remote_shards.insert(shard_id, node_id);
                    proof {
                        assert(self@.pending_shard =~= old(self)@.pending_shard.remove(shard_id));
                        assert(self@.hosted =~= old(self)@.hosted);
                    }
                    ShardAllocation::SendRemote { node_id, requests: waiting }
                }
            },
        }
    }

    /// Takes note that the actor `shard` of the hosted shard `shard_id` has
    /// started, and hands out the requests that waited in its buffer,
    /// oldest first, to be delivered to it. For a shard that is not hosted
    /// nothing changes.
    pub fn shard_ready(&mut self, shard_id: ShardId, shard: LocalActorRef) -> (buffered: Vec<
        EntityRequest,
    >)
        requires
            old(self).wf(),
        ensures
            final(self).wf(),
            final(self)@ == old(self)@.after_ready(shard_id, shard),
            buffered@ == old(self)@.buffered_in(shard_id),
    {
        match self.hosted_shards.remove(&shard_id) {
            Some(state) => {
                let buffered = match state {
                    ShardState::Starting { request_buffer } => request_buffer,
                    ShardState::Ready(_) => Vec::new(),
                };
                self.hosted_shards.insert(shard_id, ShardState::Ready(shard));
                proof {
                    assert(self@.pending_shard =~= old(self)@.pending_shard);
                    assert(self@.hosted =~= old(self)@.after_ready(shard_id, shard).hosted);
                }
                buffered
            },
            None => {
                proof {
                    assert(self@.pending_shard =~= old(self)@.pending_shard);
                    assert(self@.hosted =~= old(self)@.hosted);
                }
                Vec::new()
            },
        }
    }

    /// Takes note that the shard `shard_id` was lost. The shard becomes
    /// absent; the requests that waited in its buffer are handed out,
    /// oldest first, to be answered with `ActorUnavailable`.
    pub fn shard_stopped(&mut self, shard_id: ShardId) -> (failed: Vec<EntityRequest>)
        requires
            old(self).wf(),
        ensures
            final(self).wf(),
            final(self)@ == old(self)@.after_stopped(shard_id),
            failed@ == old(self)@.buffered_in(shard_id),
    {
        let failed = match self.hosted_shards.remove(&shard_id) {
            Some(ShardState::Starting { request_buffer }) => request_buffer,
            _ => Vec::new(),
        };
        proof {
            assert(self@.pending_shard =~= old(self)@.pending_shard);
            assert(self@.hosted =~= old(self)@.hosted.remove(shard_id));
        }
        failed
    }

    /// Hands out the requests that waited for a coordinator, oldest first,
    /// to be routed again now that one is known.
    pub fn leader_known(&mut self) -> (waiting: Vec<EntityRequest>)
        requires
            old(self).wf(),
        ensures
            final(self).wf(),
            final(self)@ == old(self)@.after_leader_known(),
            waiting@ == old(self)@.pending_leader,
    {
        let mut waiting: Vec<EntityRequest> = Vec::new();
        loop
            invariant
                self.wf(),
                self.node_id == old(self).node_id,
                self.allocator == old(self).allocator,
                self.hosted_shards == old(self).hosted_shards,
                self.remote_shards == old(self).remote_shards,
                self.requests_pending_shard_allocation == old(
                    self,
                ).requests_pending_shard_allocation,
                waiting@ + self.requests_pending_leader_allocation@ == old(self)@.pending_leader,
            ensures
                self.requests_pending_leader_allocation@.len() == 0,
            decreases self.requests_pending_leader_allocation@.len(),
        {
            let ghost rest = self.requests_pending_leader_allocation@;
            let ghost done = waiting@;
            match self.requests_pending_leader_allocation.pop_front() {
                Some(request) => {
                    waiting.push(request);
                    assert(waiting@ + self.requests_pending_leader_allocation@ =~= done + rest);
                },
                None => {
                    break ;
                },
            }
        }
        proof {
            assert(self.requests_pending_leader_allocation@ =~= Seq::empty());
            assert(waiting@ =~= waiting@ + self.requests_pending_leader_allocation@);
            assert(self@.pending_shard =~= old(self)@.pending_shard);
            assert(self@.hosted =~= old(self)@.hosted);
        }
        waiting
    }

    /// The node that hosts `shard_id`, as far as this host knows: itself,
    /// another node, or none.
    pub fn shard_node(&self, shard_id: ShardId) -> (node: Option<NodeId>)
        ensures
            node == (if self@.hosted.contains_key(shard_id) {
                Some(self@.node_id)
            } else if self@.remote.contains_key(shard_id) {
                Some(self@.remote[shard_id])
            } else {
                None::<NodeId>
            }),
    {
        if self.hosted_shards.contains_key(&shard_id) {
            Some(self.node_id)
        } else {
            match self.remote_shards.get(&shard_id) {
                Some(node) => Some(*node),
                None => None,
            }
        }
    }
}

} // verus!

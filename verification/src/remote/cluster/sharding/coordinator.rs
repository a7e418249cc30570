//! The coordinator: the one authority that places shards on nodes.

use vstd::prelude::*;
use std::collections::HashMap;
use crate::remote::cluster::node::NodeId;
use crate::remote::cluster::sharding::host::ShardId;

verus! {

broadcast use vstd::std_specs::hash::group_hash_axioms;

/// Asks the coordinator for the node of a shard.
#[derive(Debug, Clone, Copy, PartialEq, Eq)]
pub struct AllocateShard {
    pub shard_id: ShardId,
}

/// The coordinator's answer.
#[derive(Debug, Clone, Copy, PartialEq, Eq, Structural)]
pub enum AllocateShardResult {
    /// The shard is placed on the node.
    Allocated(ShardId, NodeId),
    /// The shard has no place and there is no node to place it on.
    NotAllocated,
}

/// Tells a shard host that a shard is placed on a node.
#[derive(Debug, Clone, Copy, PartialEq, Eq, Structural)]
pub struct ShardAllocated(pub ShardId, pub NodeId);

/// What a host tells itself when the coordinator's answer arrives, `None`
/// standing for an answer that never came: that the shard is placed, where
/// the answer says so, and nothing otherwise.
pub fn on_allocation_result(result: Option<AllocateShardResult>) -> (notice: Option<ShardAllocated>)
    ensures
        notice == (match result {
            Some(AllocateShardResult::Allocated(shard_id, node_id)) => Some(
                ShardAllocated(shard_id, node_id),
            ),
            _ => None::<ShardAllocated>,
        }),
{
    match result {
        Some(AllocateShardResult::Allocated(shard_id, node_id)) => Some(
            ShardAllocated(shard_id, node_id),
        ),
        _ => None,
    }
}

/// The node that a shard without a place is given: the candidates take
/// turns by shard number.
pub open spec fn choice(shard_id: ShardId, nodes: Seq<NodeId>) -> NodeId
    recommends
        nodes.len() > 0,
{
    nodes[(shard_id as int) % (nodes.len() as int)]
}

/// The coordinator's table: for each placed shard, its node.
pub struct ShardCoordinator {
    allocations: HashMap<ShardId, NodeId>,
}

impl ShardCoordinator {
    pub closed spec fn view(&self) -> Map<ShardId, NodeId> {
        self.allocations@
    }

    /// A coordinator that has placed no shard.
    pub fn new() -> (coordinator: Self)
        ensures
            coordinator@ == Map::<ShardId, NodeId>::empty(),
    {
        ShardCoordinator { allocations: HashMap::new() }
    }

    /// Answers `message`. A shard that has a place keeps it, whoever asks;
    /// a shard without one is placed on one of `nodes`, if there are any.
    pub fn allocate(&mut self, message: AllocateShard, nodes: &Vec<NodeId>) -> (result:
        AllocateShardResult)
        ensures
            forall|shard: ShardId| #[trigger]
                old(self)@.contains_key(shard) ==> final(self)@.contains_key(shard)
                    && final(self)@[shard] == old(self)@[shard],
            ({
                let shard_id = message.shard_id;
                if old(self)@.contains_key(shard_id) {
                    final(self)@ == old(self)@ && result == AllocateShardResult::Allocated(
                        shard_id,
                        old(self)@[shard_id],
                    )
                } else if nodes@.len() == 0 {
                    final(self)@ == old(self)@ && result == AllocateShardResult::NotAllocated
                } else {
                    final(self)@ == old(self)@.insert(shard_id, choice(shard_id, nodes@))
                        && result == AllocateShardResult::Allocated(
                        shard_id,
                        choice(shard_id, nodes@),
                    )
                }
            }),
    {
        let shard_id = message.shard_id;
        let placed = match self.allocations.get(&shard_id) {
            Some(node_id) => Some(*node_id),
            None => None,
        };
        match placed {
            Some(node_id) => AllocateShardResult::Allocated(shard_id, node_id),
            None => {
                if nodes.len() == 0 {
                    AllocateShardResult::NotAllocated
                } else {
                    let node_id = nodes[(shard_id as usize) % nodes.len()];
                    self.allocations.insert(shard_id, node_id);
                    AllocateShardResult::Allocated(shard_id, node_id)
                }
            },
        }
    }

    /// The node of `shard_id`, if the shard has one.
    pub fn node_of(&self, shard_id: ShardId) -> (node: Option<NodeId>)
        ensures
            node == (if self@.contains_key(shard_id) {
                Some(self@[shard_id])
            } else {
                None::<NodeId>
            }),
    {
        match self.allocations.get(&shard_id) {
            Some(node_id) => Some(*node_id),
            None => None,
        }
    }

    /// Takes the place of a shard away, after its node was lost.
    pub fn release(&mut self, shard_id: ShardId)
        ensures
            final(self)@ == old(self)@.remove(shard_id),
    {
        self.allocations.remove(&shard_id);
    }
}

} // verus!

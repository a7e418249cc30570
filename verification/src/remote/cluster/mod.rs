//! Cluster membership and the sharding of entities over the members.

pub mod node;
pub mod sharding;

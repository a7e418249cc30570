//! The remote layer: cluster membership, the actor directory, request
//! correlation, the wire messages and the sharding router.

pub mod hash;
pub mod cluster;
pub mod actor;
pub mod net;

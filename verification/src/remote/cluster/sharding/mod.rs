//! The sharding router: entities are placed in shards by their identifier,
//! shards are placed on nodes by a coordinator, and requests wait while a
//! shard has no place yet.

pub mod request;
pub mod host;
pub mod coordinator;

//! What nodes say to each other, and the connections they say it over.

pub mod wire;
pub mod proto;
pub mod client;
pub mod server;

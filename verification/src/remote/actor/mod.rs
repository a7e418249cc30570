//! The actors of the remote layer, as the tables they keep and the
//! decisions they take.

pub mod message;
pub mod handler;
pub mod clients;
pub mod registry;

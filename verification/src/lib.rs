//! Core of a distributed actor runtime: the actor lifecycle, supervision and
//! mailbox rules, the remote actor directory with its request correlation
//! table, and the sharding router, written as verified state machines.
//!
//! Every function here is synchronous and total. Work that has to wait on a
//! socket, a timer or another task is described by the actions these
//! functions return; the embedding runtime performs it and reports back.

pub mod actor;
pub mod remote;

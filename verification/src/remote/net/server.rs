//! The inbound side of a node: its configuration, and what the accept loop
//! does with each thing that happens on the listener.

use vstd::prelude::*;
use crate::remote::actor::message::{fresh_request_id, is_random_uuid, RequestId};

verus! {

/// How a node listens for its peers.
#[derive(Debug)]
pub struct RemoteServerConfig {
    /// The address to listen on for connections from the cluster.
    pub listen_addr: String,
    /// The address this node advertises in the handshake.
    pub external_node_addr: String,
    /// Whether the address a peer declares in the handshake is replaced
    /// with the address its connection comes from.
    pub override_incoming_node_addr: bool,
}

impl RemoteServerConfig {
    pub fn new(
        listen_addr: String,
        external_node_addr: String,
        override_incoming_node_addr: bool,
    ) -> (config: Self)
        ensures
            config.listen_addr == listen_addr,
            config.external_node_addr == external_node_addr,
            config.override_incoming_node_addr == override_incoming_node_addr,
    {
        Self { listen_addr, external_node_addr, override_incoming_node_addr }
    }

    /// The address under which a peer is recorded: the one its connection
    /// comes from where the configuration says so, else the one it
    /// declared.
    pub fn incoming_node_addr(&self, declared: String, observed: String) -> (addr: String)
        ensures
            addr == (if self.override_incoming_node_addr {
                observed
            } else {
                declared
            }),
    {
        if self.override_incoming_node_addr {
            observed
        } else {
            declared
        }
    }
}

/// What happened on the listener.
#[derive(Debug, PartialEq, Eq)]
pub enum AcceptOutcome {
    /// A peer connected from `peer_addr`.
    Connection { peer_addr: String },
    /// Accepting a connection failed.
    Failed,
    /// The server was told to stop.
    Cancelled,
}

/// What the accept loop does next.
#[derive(Debug, PartialEq, Eq)]
pub enum ServerStep {
    /// Start a session for the connection under `session_id`, then go on
    /// accepting.
    OpenSession { session_id: RequestId, peer_addr: String },
    /// Go on accepting.
    Continue,
    /// Leave the loop. Sessions that run are left alone.
    Stop,
}

/// What the accept loop does on `outcome`, given the identifier to use for
/// a new session: a connection gets a session, a failure is passed over,
/// and cancellation ends the loop.
pub fn server_step(outcome: AcceptOutcome, session_id: RequestId) -> (step: ServerStep)
    ensures
        step == (match outcome {
            AcceptOutcome::Connection { peer_addr } => ServerStep::OpenSession {
                session_id,
                peer_addr,
            },
            AcceptOutcome::Failed => ServerStep::Continue,
            AcceptOutcome::Cancelled => ServerStep::Stop,
        }),
{
    match outcome {
        AcceptOutcome::Connection { peer_addr } => ServerStep::OpenSession { session_id, peer_addr },
        AcceptOutcome::Failed => ServerStep::Continue,
        AcceptOutcome::Cancelled => ServerStep::Stop,
    }
}

/// What the accept loop does on `outcome`, with a fresh identifier for a
/// new session.
pub fn server_loop(outcome: AcceptOutcome) -> (step: ServerStep)
    ensures
        match outcome {
            AcceptOutcome::Connection { peer_addr } => step is OpenSession
                && step->peer_addr == peer_addr && is_random_uuid(step->session_id),
            AcceptOutcome::Failed => step is Continue,
            AcceptOutcome::Cancelled => step is Stop,
        },
{
    let session_id = fresh_request_id();
    server_step(outcome, session_id)
}

} // verus!

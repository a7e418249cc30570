//! The client of one peer: the state of its connection, what it does with
//! bytes to write, and the heartbeat it keeps.

use vstd::prelude::*;
use crate::remote::actor::clients::Write;
use crate::remote::actor::message::{
    fresh_request_id, is_random_uuid, request_id_text, uuid_parse, uuid_text, RemoteResponse, RequestId,
};
use crate::remote::cluster::node::NodeId;
use crate::remote::net::proto::{Ping, Pong, SessionEvent};

verus! {

/// Tells a client that it is time for a ping.
#[derive(Clone, Copy)]
pub struct PingTick;

/// The state of the connection of a client.
#[derive(Debug, Clone, Copy, PartialEq, Eq, Structural)]
pub enum ClientState {
    Idle,
    Connecting,
    Connected { node_id: NodeId },
    Quarantined,
}

/// What a ping showed.
#[derive(Debug, PartialEq, Eq)]
pub enum PingResult {
    /// The peer answered: its answer, how long it took in nanoseconds, and
    /// when it arrived, in milliseconds since the Unix epoch.
    Alive { pong: Pong, elapsed_nanos: u128, at_millis: i64 },
    /// No answer came before the deadline.
    Timeout,
    /// The peer reported a failure, the answer could not be read, or the
    /// wait for it was given up.
    Failed,
    /// The client is not connected.
    Disconnected,
}

/// What a ping to a node showed, for the heartbeat.
#[derive(Debug, PartialEq, Eq)]
pub struct NodePing(pub NodeId, pub PingResult);

/// What a client does on a tick.
#[derive(Debug, PartialEq, Eq)]
pub enum PingTickAction {
    /// Nothing.
    Skip,
    /// Tell the heartbeat.
    Report(NodePing),
    /// File a request under `message_id`, write `event` to the peer, and
    /// wait for the answer under the ping deadline.
    SendPing { node_id: NodeId, message_id: RequestId, event: SessionEvent },
}

/// How the wait for the answer to a ping ended.
#[derive(Debug, PartialEq, Eq)]
pub enum PingOutcome {
    /// The deadline passed.
    Elapsed,
    /// The sink for the answer was dropped.
    Dropped,
    /// An answer came.
    Answered(RemoteResponse),
}

/// Works out what a ping showed from how the wait for its answer ended,
/// how long it took and when it ended: an answer that reads as a [`Pong`]
/// shows the peer alive, the deadline shows a timeout, and everything else
/// is a failure.
pub fn ping_result(outcome: PingOutcome, elapsed_nanos: u128, at_millis: i64) -> (result:
    PingResult)
    ensures
        match outcome {
            PingOutcome::Elapsed => result is Timeout,
            PingOutcome::Dropped => result is Failed,
            PingOutcome::Answered(RemoteResponse::Failure(_)) => result is Failed,
            PingOutcome::Answered(RemoteResponse::Success(bytes)) => match Pong::decoding(bytes@) {
                Some(pong) => result is Alive && result->pong@ == pong && result->elapsed_nanos
                    == elapsed_nanos && result->at_millis == at_millis,
                None => result is Failed,
            },
        },
{
    match outcome {
        PingOutcome::Elapsed => PingResult::Timeout,
        PingOutcome::Dropped => PingResult::Failed,
        PingOutcome::Answered(RemoteResponse::Failure(_)) => PingResult::Failed,
        PingOutcome::Answered(RemoteResponse::Success(bytes)) => match Pong::parse_from_bytes(
            bytes.as_slice(),
        ) {
            Ok(pong) => PingResult::Alive { pong, elapsed_nanos, at_millis },
            Err(_) => PingResult::Failed,
        },
    }
}

/// The client of one peer.
pub struct RemoteClient {
    addr: String,
    remote_node_id: Option<NodeId>,
    state: Option<ClientState>,
}

/// A [`RemoteClient`] as plain values.
pub struct ClientView {
    pub addr: Seq<char>,
    /// The node the client was created for, if it was created for one.
    pub remote_node_id: Option<NodeId>,
    /// The state of the connection; none before the client has started.
    pub state: Option<ClientState>,
}

impl RemoteClient {
    pub closed spec fn view(&self) -> ClientView {
        ClientView { addr: self.addr@, remote_node_id: self.remote_node_id, state: self.state }
    }

    /// A client for the peer at `addr` that has not started.
    pub fn new(addr: String, remote_node_id: Option<NodeId>) -> (client: Self)
        ensures
            client@ == (ClientView { addr: addr@, remote_node_id, state: None }),
    {
        RemoteClient { addr, remote_node_id, state: None }
    }

    /// Puts the connection in `state`.
    pub fn set_state(&mut self, state: ClientState)
        ensures
            final(self)@ == (ClientView { state: Some(state), ..old(self)@ }),
    {
        self.state = Some(state);
    }

    pub fn state(&self) -> (state: Option<ClientState>)
        ensures
            state == self@.state,
    {
        self.state
    }

    /// The node at the other end, while the client is connected.
    pub fn connected_node(&self) -> (node: Option<NodeId>)
        ensures
            node == (match self@.state {
                Some(ClientState::Connected { node_id }) => Some(node_id),
                _ => None::<NodeId>,
            }),
    {
        match self.state {
            Some(ClientState::Connected { node_id }) => Some(node_id),
            _ => None,
        }
    }

    /// What becomes of `bytes` to write: a frame on the connection while
    /// the client is connected, nothing in every other state.
    pub fn client_write(&self, bytes: Vec<u8>) -> (frame: Option<Write>)
        ensures
            frame == (match self@.state {
                Some(ClientState::Connected { .. }) => Some(Write(bytes)),
                _ => None::<Write>,
            }),
    {
        match self.state {
            Some(ClientState::Connected { .. }) => Some(Write(bytes)),
            _ => None,
        }
    }

    /// What the client does on a tick, given the identifier to use for a
    /// ping. Without a heartbeat to report to, and before the client has
    /// started, it does nothing. Connected, it pings its peer under
    /// `message_id`. In any other state it reports the node it was created
    /// for, if there is one, as disconnected.
    pub fn ping_tick_with(&self, heartbeat_available: bool, message_id: RequestId) -> (action:
        PingTickAction)
        ensures
            match (heartbeat_available, self@.state) {
                (false, _) => action is Skip,
                (true, None) => action is Skip,
                (true, Some(ClientState::Connected { node_id })) => {
                    &&& action is SendPing
                    &&& action->node_id == node_id
                    &&& action->message_id == message_id
                    &&& action->event is Ping
                    &&& action->event->Ping_0.message_id@ == uuid_text(message_id)
                    &&& uuid_parse(action->event->Ping_0.message_id@) == Some(message_id)
                },
                (true, Some(_)) => match self@.remote_node_id {
                    Some(node_id) => action is Report && action->Report_0.0 == node_id
                        && action->Report_0.1 is Disconnected,
                    None => action is Skip,
                },
            },
    {
        if !heartbeat_available {
            return PingTickAction::Skip;
        }
        match self.state {
            None => PingTickAction::Skip,
            Some(ClientState::Connected { node_id }) => PingTickAction::SendPing {
                node_id,
                message_id,
                event: SessionEvent::Ping(Ping { message_id: request_id_text(message_id) }),
            },
            Some(_) => match self.remote_node_id {
                Some(node_id) => PingTickAction::Report(NodePing(node_id, PingResult::Disconnected)),
                None => PingTickAction::Skip,
            },
        }
    }

    /// What the client does on a tick, with a fresh identifier for a ping.
    pub fn ping_tick(&self, _tick: PingTick, heartbeat_available: bool) -> (action: PingTickAction)
        ensures
            match (heartbeat_available, self@.state) {
                (false, _) => action is Skip,
                (true, None) => action is Skip,
                (true, Some(ClientState::Connected { node_id })) => {
                    &&& action is SendPing
                    &&& action->node_id == node_id
                    &&& is_random_uuid(action->message_id)
                    &&& action->event is Ping
                    &&& action->event->Ping_0.message_id@ == uuid_text(action->message_id)
                    &&& uuid_parse(action->event->Ping_0.message_id@) == Some(action->message_id)
                },
                (true, Some(_)) => match self@.remote_node_id {
                    Some(node_id) => action is Report && action->Report_0.0 == node_id
                        && action->Report_0.1 is Disconnected,
                    None => action is Skip,
                },
            },
    {
        let message_id = fresh_request_id();
        self.ping_tick_with(heartbeat_available, message_id)
    }
}

} // verus!

use coerce::remote::actor::clients::Write;
use coerce::remote::actor::message::RemoteResponse;
use coerce::remote::net::client::{
    ping_result, ClientState, NodePing, PingOutcome, PingResult, PingTick, PingTickAction,
    RemoteClient,
};
use coerce::remote::net::proto::{Ping, Pong, SessionEvent};
use coerce::remote::net::server::{server_loop, server_step, AcceptOutcome, RemoteServerConfig, ServerStep};

fn connected(node_id: u64) -> RemoteClient {
    let mut client = RemoteClient::new("10.0.0.2:7000".to_string(), Some(node_id));
    client.set_state(ClientState::Connecting);
    client.set_state(ClientState::Connected { node_id });
    client
}

#[test]
fn ping_timeout() {
    let client = connected(2);
    let (node_id, message_id, event) = match client.ping_tick(PingTick, true) {
        PingTickAction::SendPing { node_id, message_id, event } => (node_id, message_id, event),
        other => panic!("a connected client pings: {:?}", other),
    };
    assert_eq!(node_id, 2);
    let text = match event {
        SessionEvent::Ping(Ping { message_id }) => message_id,
        other => panic!("a ping is sent: {:?}", other),
    };
    assert_eq!(uuid::Uuid::parse_str(&text).unwrap().as_u128(), message_id);
    assert_eq!((message_id >> 76) & 0xf, 4);
    assert!((8..=11).contains(&((message_id >> 60) & 0xf)));
    // the peer cannot write: the deadline of 50 ms passes
    let report = NodePing(node_id, ping_result(PingOutcome::Elapsed, 50_000_000, 1_700_000_000_050));
    assert_eq!(report, NodePing(2, PingResult::Timeout));
}

#[test]
fn ping_identifiers_are_hyphenated_lower_case() {
    let client = connected(2);
    let id: u128 = 0x550E8400_E29B_41D4_A716_446655440000;
    assert_eq!(
        client.ping_tick_with(true, id),
        PingTickAction::SendPing {
            node_id: 2,
            message_id: id,
            event: SessionEvent::Ping(Ping {
                message_id: "550e8400-e29b-41d4-a716-446655440000".to_string()
            }),
        }
    );
    assert_eq!(
        client.ping_tick_with(true, 0),
        PingTickAction::SendPing {
            node_id: 2,
            message_id: 0,
            event: SessionEvent::Ping(Ping {
                message_id: "00000000-0000-0000-0000-000000000000".to_string()
            }),
        }
    );
}

#[test]
fn ticks_outside_a_connection() {
    let fresh = RemoteClient::new("a:1".to_string(), Some(2));
    assert_eq!(fresh.state(), None);
    assert_eq!(fresh.ping_tick(PingTick, true), PingTickAction::Skip);
    assert_eq!(connected(2).ping_tick(PingTick, false), PingTickAction::Skip);

    for state in [ClientState::Idle, ClientState::Connecting, ClientState::Quarantined] {
        let mut client = RemoteClient::new("a:1".to_string(), Some(2));
        client.set_state(state);
        assert_eq!(client.state(), Some(state));
        assert_eq!(client.connected_node(), None);
        assert_eq!(
            client.ping_tick(PingTick, true),
            PingTickAction::Report(NodePing(2, PingResult::Disconnected))
        );
        assert_eq!(client.ping_tick(PingTick, false), PingTickAction::Skip);
        let mut nameless = RemoteClient::new("a:1".to_string(), None);
        nameless.set_state(state);
        assert_eq!(nameless.ping_tick(PingTick, true), PingTickAction::Skip);
    }
    assert_eq!(connected(5).connected_node(), Some(5));
}

#[test]
fn ping_results() {
    let pong = Pong { message_id: "m".to_string() };
    assert_eq!(
        ping_result(PingOutcome::Answered(RemoteResponse::Success(pong.write_to_bytes())), 1_500, 99),
        PingResult::Alive { pong, elapsed_nanos: 1_500, at_millis: 99 }
    );
    assert_eq!(
        ping_result(PingOutcome::Answered(RemoteResponse::Success(vec![0xff])), 1, 1),
        PingResult::Failed
    );
    assert_eq!(
        ping_result(PingOutcome::Answered(RemoteResponse::Failure(vec![])), 1, 1),
        PingResult::Failed
    );
    assert_eq!(ping_result(PingOutcome::Dropped, 1, 1), PingResult::Failed);
    assert_eq!(ping_result(PingOutcome::Elapsed, 1, 1), PingResult::Timeout);
}

#[test]
fn writes_are_dropped_unless_connected() {
    assert_eq!(connected(2).client_write(vec![1, 2]), Some(Write(vec![1, 2])));
    let mut client = RemoteClient::new("a:1".to_string(), None);
    assert_eq!(client.client_write(vec![1]), None);
    for state in [ClientState::Idle, ClientState::Connecting, ClientState::Quarantined] {
        client.set_state(state);
        assert_eq!(client.client_write(vec![1]), None);
    }
}

#[test]
fn server_config_keeps_what_it_is_given() {
    let config = RemoteServerConfig::new("0.0.0.0:7000".to_string(), "node-1:7000".to_string(), true);
    assert_eq!(config.listen_addr, "0.0.0.0:7000");
    assert_eq!(config.external_node_addr, "node-1:7000");
    assert!(config.override_incoming_node_addr);
    assert_eq!(
        config.incoming_node_addr("declared:1".to_string(), "observed:1".to_string()),
        "observed:1"
    );
    let keep = RemoteServerConfig::new(String::new(), String::new(), false);
    assert_eq!(
        keep.incoming_node_addr("declared:1".to_string(), "observed:1".to_string()),
        "declared:1"
    );
}

#[test]
fn the_accept_loop_runs_until_cancelled() {
    assert_eq!(
        server_step(AcceptOutcome::Connection { peer_addr: "10.0.0.9:5555".to_string() }, 17),
        ServerStep::OpenSession { session_id: 17, peer_addr: "10.0.0.9:5555".to_string() }
    );
    assert_eq!(server_step(AcceptOutcome::Failed, 17), ServerStep::Continue);
    assert_eq!(server_step(AcceptOutcome::Cancelled, 17), ServerStep::Stop);

    let mut sessions = Vec::new();
    let mut steps = 0;
    for outcome in [
        AcceptOutcome::Connection { peer_addr: "a:1".to_string() },
        AcceptOutcome::Failed,
        AcceptOutcome::Connection { peer_addr: "b:2".to_string() },
        AcceptOutcome::Cancelled,
        AcceptOutcome::Connection { peer_addr: "never:3".to_string() },
    ] {
        steps += 1;
        match server_loop(outcome) {
            ServerStep::OpenSession { session_id, peer_addr } => sessions.push((session_id, peer_addr)),
            ServerStep::Continue => {}
            ServerStep::Stop => break,
        }
    }
    assert_eq!(steps, 4);
    assert_eq!(sessions.len(), 2);
    assert_eq!(sessions[0].1, "a:1");
    assert_eq!(sessions[1].1, "b:2");
    assert_ne!(sessions[0].0, sessions[1].0);
    for (session_id, _) in sessions {
        assert_eq!((session_id >> 76) & 0xf, 4);
        assert!((8..=11).contains(&((session_id >> 60) & 0xf)));
    }
}

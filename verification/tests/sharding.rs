use coerce::actor::refs::{ActorRefErr, LocalActorRef};
use coerce::remote::actor::handler::RemoteHandler;
use coerce::remote::actor::message::{RemoteRequest, RemoteResponse};
use coerce::remote::cluster::sharding::coordinator::{
    on_allocation_result, AllocateShard, AllocateShardResult, ShardAllocated, ShardCoordinator,
};
use coerce::remote::cluster::sharding::host::{
    RequestRoute, ShardAllocation, ShardAllocator, ShardHost, ShardState,
};
use coerce::remote::cluster::sharding::request::{
    outbound_entity_request, remote_entity_reply, remote_entity_request, EntityRequest,
    RemoteEntityReply, RemoteEntityRequest,
};
use coerce::remote::net::proto::{MessageUnwrapErr, MessageWrapErr};
use coerce::remote::hash::hash_key;
use std::sync::Arc;

type ReplyReceiver = tokio::sync::oneshot::Receiver<Result<Vec<u8>, ActorRefErr>>;

fn request(actor_id: &str, payload: u8) -> EntityRequest {
    EntityRequest {
        actor_id: actor_id.to_string(),
        message_type: "Deposit".to_string(),
        message: vec![payload],
        recipe: None,
        result_channel: None,
    }
}

fn request_with_reply(actor_id: &str, payload: u8) -> (EntityRequest, ReplyReceiver) {
    let (tx, rx) = tokio::sync::oneshot::channel();
    let mut request = request(actor_id, payload);
    request.result_channel = Some(tx);
    (request, rx)
}

fn host(node_id: u64) -> ShardHost {
    ShardHost::new(node_id, ShardAllocator::new(10).expect("ten shards"))
}

fn shard_actor(shard_id: u32) -> LocalActorRef {
    LocalActorRef::new(format!("shard-{}", shard_id), "Shard".to_string())
}

fn payloads(requests: &[EntityRequest]) -> Vec<u8> {
    requests.iter().map(|r| r.message[0]).collect()
}

#[test]
fn entities_are_placed_by_hash_modulo_shard_count() {
    assert!(ShardAllocator::new(0).is_none());
    let allocator = ShardAllocator::new(10).unwrap();
    assert_eq!(allocator.allocate(&"entity-0".to_string()), 7);
    assert_eq!(allocator.allocate(&"user-42".to_string()), 9);
    assert_eq!(allocator.allocate(&"a".to_string()), 6);
    let hundred = ShardAllocator::new(100).unwrap();
    assert_eq!(hundred.allocate(&"user-42".to_string()), 19);
    for id in ["a", "b", "c", "entity-0", "user-42"] {
        assert_eq!(hundred.allocate(&id.to_string()) as u64, hash_key(id) % 100);
        assert_eq!(ShardAllocator::new(1).unwrap().allocate(&id.to_string()), 0);
    }
}

#[test]
fn shard_allocation() {
    let mut client_host = host(2);
    let mut n1 = host(1);
    let mut coordinator = ShardCoordinator::new();
    let mut in_flight = RemoteHandler::new();

    // Shard 7 has no place: the request waits and the coordinator is asked.
    let (entity_request, mut reply) = request_with_reply("entity-0", 42);
    let shard_id = match client_host.handle(entity_request, true) {
        RequestRoute::AllocateShard { shard_id } => shard_id,
        other => panic!("the shard has no place yet: {:?}", other),
    };
    assert_eq!(shard_id, 7);
    assert_eq!(client_host.shard_node(7), None);

    let answer = coordinator.allocate(AllocateShard { shard_id }, &vec![1]);
    assert_eq!(answer, AllocateShardResult::Allocated(7, 1));
    let ShardAllocated(shard_id, node_id) = on_allocation_result(Some(answer)).unwrap();

    // N1 learns that it hosts the shard and starts it.
    assert!(matches!(n1.shard_allocated(shard_id, node_id), ShardAllocation::StartShard { shard_id: 7 }));
    assert!(n1.shard_ready(7, shard_actor(7)).is_empty());
    assert_eq!(n1.shard_node(7), Some(1));

    // The asking host sends what waited to N1.
    let waiting = match client_host.shard_allocated(shard_id, node_id) {
        ShardAllocation::SendRemote { node_id, requests } => {
            assert_eq!(node_id, 1);
            requests
        }
        other => panic!("the shard is on another node: {:?}", other),
    };
    assert_eq!(payloads(&waiting), vec![42]);
    assert_eq!(client_host.shard_node(7), Some(1));
    let outbound = remote_entity_request(waiting.into_iter().next().unwrap(), 2);
    assert_eq!(outbound.request.origin_node, 2);
    let (res_tx, mut res_rx) = tokio::sync::oneshot::channel();
    in_flight.push_request(outbound.request.request_id, RemoteRequest { res_tx });
    let on_the_wire = outbound.request.write_to_bytes();

    // N1 delivers the request to the entity through its shard.
    let arrived = RemoteEntityRequest::from_remote_envelope(on_the_wire).unwrap();
    let request_id = arrived.request_id;
    match n1.handle(EntityRequest::from(arrived), true) {
        RequestRoute::DeliverLocal { shard_id, delivery } => {
            assert_eq!(shard_id, 7);
            assert_eq!(delivery.shard, shard_actor(7));
            assert_eq!(delivery.request.actor_id, "entity-0");
            assert_eq!(delivery.request.message, vec![42]);
            assert!(delivery.request.result_channel.is_none());
        }
        other => panic!("the shard runs on N1: {:?}", other),
    }

    // The answer finds its request and goes back to the client.
    let waiting_request = in_flight.pop_request(request_id).expect("the request is in flight");
    waiting_request.res_tx.send(RemoteResponse::Success(vec![1, 0, 0])).unwrap();
    let RemoteEntityReply { reply: to_client, outcome } = remote_entity_reply(res_rx.try_recv().ok());
    assert_eq!(outcome, Ok(()));
    outbound.result_channel.unwrap().send(to_client.unwrap()).unwrap();
    assert_eq!(reply.try_recv(), Ok(Ok(vec![1, 0, 0])));

    // A later request goes straight to N1.
    match client_host.handle(request("entity-0", 43), true) {
        RequestRoute::SendRemote { shard_id, node_id, request } => {
            assert_eq!((shard_id, node_id), (7, 1));
            assert_eq!(request.message, vec![43]);
        }
        other => panic!("the shard is known to be on N1: {:?}", other),
    }
}

#[test]
fn shard_rehoming() {
    let mut n1 = host(1);
    assert!(matches!(n1.shard_allocated(7, 1), ShardAllocation::StartShard { shard_id: 7 }));
    for payload in [1, 2, 3] {
        assert!(matches!(
            n1.handle(request("entity-0", payload), true),
            RequestRoute::Buffered { shard_id: 7 }
        ));
    }
    let drained = n1.shard_ready(7, shard_actor(7));
    assert_eq!(payloads(&drained), vec![1, 2, 3]);
    assert!(n1.shard_ready(7, shard_actor(7)).is_empty());
    assert!(matches!(
        n1.handle(request("entity-0", 4), true),
        RequestRoute::DeliverLocal { shard_id: 7, .. }
    ));
}

#[test]
fn requests_from_before_and_after_the_allocation_keep_their_order() {
    let mut n1 = host(1);
    for payload in [1, 2] {
        assert!(matches!(
            n1.handle(request("entity-0", payload), true),
            RequestRoute::AllocateShard { shard_id: 7 }
        ));
    }
    assert!(matches!(n1.shard_allocated(7, 1), ShardAllocation::StartShard { shard_id: 7 }));
    assert!(matches!(n1.handle(request("entity-0", 3), true), RequestRoute::Buffered { shard_id: 7 }));
    // the allocation is reported a second time: nothing waits any more
    assert!(matches!(n1.shard_allocated(7, 1), ShardAllocation::Buffered { shard_id: 7 }));
    assert_eq!(payloads(&n1.shard_ready(7, shard_actor(7))), vec![1, 2, 3]);
    match n1.shard_allocated(7, 1) {
        ShardAllocation::DeliverLocal { shard, requests } => {
            assert_eq!(shard, shard_actor(7));
            assert!(requests.is_empty());
        }
        other => panic!("the shard runs: {:?}", other),
    }
}

#[test]
fn requests_wait_for_a_coordinator() {
    let mut n1 = host(1);
    for payload in [1, 2, 3] {
        let actor = if payload == 2 { "user-42" } else { "entity-0" };
        assert!(matches!(n1.handle(request(actor, payload), false), RequestRoute::AwaitLeader));
    }
    let waiting = n1.leader_known();
    assert_eq!(payloads(&waiting), vec![1, 2, 3]);
    assert!(n1.leader_known().is_empty());
    let mut asked = Vec::new();
    for request in waiting {
        match n1.handle(request, true) {
            RequestRoute::AllocateShard { shard_id } => asked.push(shard_id),
            other => panic!("no shard has a place: {:?}", other),
        }
    }
    assert_eq!(asked, vec![7, 9, 7]);
    match n1.shard_allocated(9, 3) {
        ShardAllocation::SendRemote { node_id, requests } => {
            assert_eq!(node_id, 3);
            assert_eq!(payloads(&requests), vec![2]);
        }
        other => panic!("shard 9 is on node 3: {:?}", other),
    }
    match n1.shard_allocated(7, 3) {
        ShardAllocation::SendRemote { requests, .. } => assert_eq!(payloads(&requests), vec![1, 3]),
        other => panic!("shard 7 is on node 3: {:?}", other),
    }
}

#[test]
fn a_lost_shard_becomes_absent_and_its_requests_are_handed_back() {
    let mut n1 = host(1);
    n1.shard_allocated(7, 1);
    n1.handle(request("entity-0", 1), true);
    n1.handle(request("entity-0", 2), true);
    let failed = n1.shard_stopped(7);
    assert_eq!(payloads(&failed), vec![1, 2]);
    assert_eq!(n1.shard_node(7), None);
    assert!(n1.shard_stopped(7).is_empty());
    // absent, not starting: the next request asks for a place again
    assert!(matches!(
        n1.handle(request("entity-0", 3), true),
        RequestRoute::AllocateShard { shard_id: 7 }
    ));
    // a start notice for a shard that is not hosted changes nothing
    assert!(n1.shard_ready(3, shard_actor(3)).is_empty());
    assert_eq!(n1.shard_node(3), None);

    n1.shard_allocated(4, 1);
    n1.shard_ready(4, shard_actor(4));
    assert!(n1.shard_stopped(4).is_empty());
    assert_eq!(n1.shard_node(4), None);
}

#[test]
fn handle_request_buffers_or_delivers() {
    let n1 = host(1);
    let mut starting = ShardState::Starting { request_buffer: vec![request("a", 1)] };
    assert!(n1.handle_request(request("a", 2), &mut starting).is_none());
    match &starting {
        ShardState::Starting { request_buffer } => assert_eq!(payloads(request_buffer), vec![1, 2]),
        other => panic!("still starting: {:?}", other),
    }
    let mut ready = ShardState::Ready(shard_actor(1));
    let delivery = n1.handle_request(request("a", 3), &mut ready).expect("a running shard takes it");
    assert_eq!(delivery.shard, shard_actor(1));
    assert_eq!(delivery.request.message, vec![3]);
    assert!(matches!(ready, ShardState::Ready(_)));
}

#[test]
fn a_shard_is_hosted_by_one_node_only() {
    let nodes = vec![1u64, 2, 3];
    let mut coordinator = ShardCoordinator::new();
    let mut hosts: Vec<ShardHost> = nodes.iter().map(|n| host(*n)).collect();
    for shard_id in 0..10u32 {
        // every host asks; every host hears every answer
        for _ in 0..hosts.len() {
            let answer = coordinator.allocate(AllocateShard { shard_id }, &nodes);
            let ShardAllocated(shard, node) = on_allocation_result(Some(answer)).unwrap();
            for h in hosts.iter_mut() {
                h.shard_allocated(shard, node);
            }
        }
        let placed = coordinator.node_of(shard_id).unwrap();
        assert_eq!(placed, nodes[shard_id as usize % 3]);
        let mut hosting = 0;
        for (h, node) in hosts.iter().zip(nodes.iter()) {
            assert_eq!(h.shard_node(shard_id), Some(placed));
            if placed == *node {
                hosting += 1;
            }
        }
        assert_eq!(hosting, 1);
    }
}

#[test]
fn the_coordinator_keeps_a_shard_where_it_is() {
    let mut coordinator = ShardCoordinator::new();
    assert_eq!(coordinator.node_of(5), None);
    assert_eq!(
        coordinator.allocate(AllocateShard { shard_id: 5 }, &vec![]),
        AllocateShardResult::NotAllocated
    );
    assert_eq!(coordinator.node_of(5), None);
    assert_eq!(
        coordinator.allocate(AllocateShard { shard_id: 5 }, &vec![10, 20, 30]),
        AllocateShardResult::Allocated(5, 30)
    );
    assert_eq!(
        coordinator.allocate(AllocateShard { shard_id: 5 }, &vec![40]),
        AllocateShardResult::Allocated(5, 30)
    );
    assert_eq!(
        coordinator.allocate(AllocateShard { shard_id: 5 }, &vec![]),
        AllocateShardResult::Allocated(5, 30)
    );
    coordinator.release(5);
    assert_eq!(coordinator.node_of(5), None);
    assert_eq!(
        coordinator.allocate(AllocateShard { shard_id: 5 }, &vec![40]),
        AllocateShardResult::Allocated(5, 40)
    );
    assert_eq!(on_allocation_result(None), None);
    assert_eq!(on_allocation_result(Some(AllocateShardResult::NotAllocated)), None);
    assert_eq!(
        on_allocation_result(Some(AllocateShardResult::Allocated(1, 2))),
        Some(ShardAllocated(1, 2))
    );
}

#[test]
fn outbound_requests_keep_their_parts() {
    let (mut entity_request, _reply) = request_with_reply("entity-0", 5);
    entity_request.recipe = Some(Arc::new(vec![8, 8]));
    let outbound = outbound_entity_request(entity_request, 77, 3);
    assert_eq!(
        outbound.request,
        RemoteEntityRequest {
            request_id: 77,
            actor_id: "entity-0".to_string(),
            message_type: "Deposit".to_string(),
            message: vec![5],
            recipe: Some(vec![8, 8]),
            origin_node: 3,
        }
    );
    assert!(outbound.result_channel.is_some());
    let back = EntityRequest::from(outbound.request);
    assert_eq!(back.actor_id, "entity-0");
    assert_eq!(back.message_type, "Deposit");
    assert_eq!(back.message, vec![5]);
    assert_eq!(back.recipe, Some(Arc::new(vec![8, 8])));
    assert!(back.result_channel.is_none());

    let first = remote_entity_request(request("a", 1), 1);
    let second = remote_entity_request(request("a", 1), 1);
    assert_ne!(first.request.request_id, second.request.request_id);
    assert!(first.result_channel.is_none());
    for id in [first.request.request_id, second.request.request_id] {
        assert_eq!((id >> 76) & 0xf, 4);
        assert!((8..=11).contains(&((id >> 60) & 0xf)));
    }
}

#[test]
fn remote_replies() {
    assert_eq!(
        remote_entity_reply(Some(RemoteResponse::Success(vec![1]))),
        RemoteEntityReply { reply: Some(Ok(vec![1])), outcome: Ok(()) }
    );
    assert_eq!(
        remote_entity_reply(Some(RemoteResponse::Failure(vec![1]))),
        RemoteEntityReply { reply: Some(Err(ActorRefErr::ActorUnavailable)), outcome: Ok(()) }
    );
    assert_eq!(
        remote_entity_reply(None),
        RemoteEntityReply {
            reply: Some(Err(ActorRefErr::ActorUnavailable)),
            outcome: Err(ActorRefErr::ActorUnavailable),
        }
    );
}

#[test]
fn entity_requests_do_not_cross_nodes_as_they_are() {
    let (entity_request, _reply) = request_with_reply("entity-0", 1);
    assert!(matches!(entity_request.as_remote_envelope(), Err(MessageWrapErr::NotTransmittable)));
    assert!(matches!(
        EntityRequest::from_remote_envelope(vec![1, 2, 3]),
        Err(MessageUnwrapErr::NotTransmittable)
    ));
}

#[test]
fn a_lost_answer_is_told_to_the_caller() {
    let (entity_request, mut reply) = request_with_reply("entity-0", 9);
    let outbound = remote_entity_request(entity_request, 2);
    let (res_tx, mut res_rx) = tokio::sync::oneshot::channel::<RemoteResponse>();
    // the peer fails: the sink for the answer is dropped with nothing in it
    drop(res_tx);
    let RemoteEntityReply { reply: to_client, outcome } = remote_entity_reply(res_rx.try_recv().ok());
    assert_eq!(outcome, Err(ActorRefErr::ActorUnavailable));
    outbound.result_channel.unwrap().send(to_client.expect("the caller is told")).unwrap();
    assert_eq!(reply.try_recv(), Ok(Err(ActorRefErr::ActorUnavailable)));
}

#[test]
fn a_request_that_cannot_be_served_is_answered_with_actor_unavailable() {
    let (entity_request, mut reply) = request_with_reply("entity-0", 9);
    let failed = entity_request.fail().expect("a channel was given");
    assert_eq!(failed.answer, Err(ActorRefErr::ActorUnavailable));
    failed.result_channel.send(failed.answer).unwrap();
    assert_eq!(reply.try_recv(), Ok(Err(ActorRefErr::ActorUnavailable)));
    assert!(request("entity-0", 9).fail().is_none());

    // a delivery to a running shard that fails
    let n1 = host(1);
    let mut ready = ShardState::Ready(shard_actor(7));
    let (entity_request, mut reply) = request_with_reply("entity-0", 3);
    let delivery = n1.handle_request(entity_request, &mut ready).expect("handed on");
    let failed = delivery.request.fail().expect("a channel was given");
    failed.result_channel.send(failed.answer).unwrap();
    assert_eq!(reply.try_recv(), Ok(Err(ActorRefErr::ActorUnavailable)));

    // requests that waited for a shard that was lost
    let mut n1 = host(1);
    n1.shard_allocated(7, 1);
    let (first, mut first_reply) = request_with_reply("entity-0", 1);
    let (second, mut second_reply) = request_with_reply("entity-0", 2);
    n1.handle(first, true);
    n1.handle(second, true);
    for request in n1.shard_stopped(7) {
        let failed = request.fail().expect("a channel was given");
        failed.result_channel.send(failed.answer).unwrap();
    }
    assert_eq!(first_reply.try_recv(), Ok(Err(ActorRefErr::ActorUnavailable)));
    assert_eq!(second_reply.try_recv(), Ok(Err(ActorRefErr::ActorUnavailable)));
}

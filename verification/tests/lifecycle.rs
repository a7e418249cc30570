use coerce::actor::context::{
    attach_stream, on_context_dropped, ActorContext, ActorHandlerContext, ActorStatus, ActorTags,
    ChildTerminated, StopCause, StreamAttachmentOptions, StreamItem, StreamStep,
};
use coerce::actor::lifecycle::{
    ActorLoop, ActorType, LoopAction, LoopEvent, LoopPhase, Rejected, Status, Stop,
};
use coerce::actor::mailbox::{send_result, Mailbox, ReplyOutcome};
use coerce::actor::refs::{ActorRef, ActorRefErr, BoxedActorRef, LocalActorRef, RemoteActorRef};
use coerce::actor::system::ActorSystem;

fn boxed(id: &str, actor_type: &str) -> BoxedActorRef {
    BoxedActorRef::new(id.to_string(), actor_type.to_string())
}

fn started(ctx: &mut ActorContext, actor_type: ActorType) -> ActorLoop {
    let mut actor_loop = ActorLoop::new(actor_type);
    assert!(matches!(actor_loop.step(ctx, LoopEvent::Begin), Ok(LoopAction::RunStarted)));
    assert!(matches!(actor_loop.step(ctx, LoopEvent::StartedReturned), Ok(LoopAction::Ready)));
    actor_loop
}

enum EchoMessage {
    Echo(String),
    Stop,
}

#[test]
fn local_echo() {
    let mut mailbox: Mailbox<EchoMessage> = Mailbox::new();
    let mut ctx = ActorContext::new(None, ActorStatus::Starting, boxed("echo", "Echo"));
    let mut trace = vec![*ctx.get_status()];
    let mut actor_loop = started(&mut ctx, ActorType::Anonymous);
    trace.push(*ctx.get_status());
    assert_eq!(trace, vec![ActorStatus::Starting, ActorStatus::Started]);

    let enqueued = mailbox.notify(EchoMessage::Echo("hi".to_string()));
    assert_eq!(enqueued, Ok(()));
    let message = mailbox.next().expect("the message waits");
    assert!(matches!(actor_loop.step(&mut ctx, LoopEvent::Received), Ok(LoopAction::Handle)));
    let answer = match message {
        EchoMessage::Echo(text) => text,
        EchoMessage::Stop => panic!("echo expected"),
    };
    assert!(matches!(actor_loop.step(&mut ctx, LoopEvent::Handled), Ok(LoopAction::Receive)));
    assert_eq!(send_result(enqueued, ReplyOutcome::Answered(answer)), Ok("hi".to_string()));

    assert_eq!(mailbox.notify(EchoMessage::Stop), Ok(()));
    assert!(matches!(mailbox.next(), Some(EchoMessage::Stop)));
    assert!(matches!(actor_loop.step(&mut ctx, LoopEvent::Received), Ok(LoopAction::Handle)));
    assert_eq!(Stop().handle(&mut ctx), ActorStatus::Stopping);
    assert!(matches!(actor_loop.step(&mut ctx, LoopEvent::Handled), Ok(LoopAction::RunStopped)));
    assert!(matches!(
        actor_loop.step(&mut ctx, LoopEvent::StoppedReturned),
        Ok(LoopAction::Complete { .. })
    ));
    assert_eq!(*ctx.get_status(), ActorStatus::Stopped);
    assert!(mailbox.close().is_empty());

    let refused = mailbox.notify(EchoMessage::Echo("late".to_string()));
    assert_eq!(refused, Err(ActorRefErr::ActorUnavailable));
    assert_eq!(
        send_result(refused, ReplyOutcome::<String>::SinkDropped),
        Err(ActorRefErr::ActorUnavailable)
    );
}

#[test]
fn supervised_stop_cascade() {
    let mut parent = ActorContext::new(None, ActorStatus::Starting, boxed("parent", "Parent"));
    let mut parent_loop = started(&mut parent, ActorType::Anonymous);
    let (c1, parent_of_c1) = parent.spawn("c1".to_string(), "Child".to_string());
    let (c2, parent_of_c2) = parent.spawn("c2".to_string(), "Child".to_string());
    assert_eq!(parent_of_c1, boxed("parent", "Parent"));
    assert_eq!(parent_of_c2, boxed("parent", "Parent"));
    assert_eq!(parent.supervised_count(), 2);

    let (on_stopped, mut stopped) = tokio::sync::oneshot::channel::<()>();
    parent.add_on_stopped_handler(on_stopped);

    assert!(matches!(parent_loop.step(&mut parent, LoopEvent::Received), Ok(LoopAction::Handle)));
    Stop().handle(&mut parent);
    assert!(matches!(parent_loop.step(&mut parent, LoopEvent::Handled), Ok(LoopAction::RunStopped)));
    let children = match parent_loop.step(&mut parent, LoopEvent::StoppedReturned) {
        Ok(LoopAction::StopChildren { deregister, children }) => {
            assert_eq!(deregister, None);
            children
        }
        other => panic!("children have to stop first: {:?}", other),
    };
    let mut ids: Vec<String> = children.iter().map(|c| c.actor_id.clone()).collect();
    ids.sort();
    assert_eq!(ids, vec!["c1".to_string(), "c2".to_string()]);
    assert_eq!(*parent.get_status(), ActorStatus::Stopped);
    assert!(stopped.try_recv().is_err());

    let mut stop_order = Vec::new();
    for child in [c1, c2] {
        let mut ctx = ActorContext::new(None, ActorStatus::Starting, child.clone().into_boxed())
            .with_parent(Some(parent.boxed_actor_ref()));
        let mut child_loop = started(&mut ctx, ActorType::Anonymous);
        assert!(matches!(child_loop.step(&mut ctx, LoopEvent::Received), Ok(LoopAction::Handle)));
        Stop().handle(&mut ctx);
        assert!(matches!(child_loop.step(&mut ctx, LoopEvent::Handled), Ok(LoopAction::RunStopped)));
        let notice = match child_loop.step(&mut ctx, LoopEvent::StoppedReturned) {
            Ok(LoopAction::Complete { dropped, .. }) => dropped.notice.expect("a parent is owed a notice"),
            other => panic!("a child without children completes: {:?}", other),
        };
        assert_eq!(notice.parent, boxed("parent", "Parent"));
        stop_order.push(notice.child.clone());
        let action = parent_loop.step(&mut parent, LoopEvent::ChildTerminated(notice.child)).unwrap();
        if stop_order.len() < 2 {
            assert!(matches!(action, LoopAction::AwaitChildren));
            assert_eq!(parent_loop.phase(), LoopPhase::Releasing);
        } else {
            match action {
                LoopAction::Complete { subscribers, dropped, deregister } => {
                    assert_eq!(deregister, None);
                    assert_eq!(dropped.cause, StopCause::Stopped);
                    assert_eq!(dropped.notice, None);
                    assert_eq!(subscribers.len(), 1);
                    for subscriber in subscribers {
                        subscriber.send(()).unwrap();
                    }
                }
                other => panic!("the parent completes after its last child: {:?}", other),
            }
        }
    }
    stop_order.push("parent".to_string());
    assert_eq!(stop_order, vec!["c1".to_string(), "c2".to_string(), "parent".to_string()]);
    assert_eq!(parent_loop.phase(), LoopPhase::Done);
    assert_eq!(parent.supervised_count(), 0);
    assert!(stopped.try_recv().is_ok());
}

#[test]
fn status_only_moves_forward_through_the_loop() {
    let mut ctx = ActorContext::new(None, ActorStatus::Starting, boxed("a", "A"));
    let mut actor_loop = ActorLoop::new(ActorType::Anonymous);
    let mut seen = vec![*ctx.get_status()];
    for event in [
        LoopEvent::Begin,
        LoopEvent::StartedReturned,
        LoopEvent::Received,
        LoopEvent::Handled,
        LoopEvent::MailboxClosed,
        LoopEvent::StoppedReturned,
    ] {
        let before = *ctx.get_status();
        actor_loop.step(&mut ctx, event).unwrap();
        assert!(before.may_advance_to(*ctx.get_status()));
        seen.push(*ctx.get_status());
    }
    seen.dedup();
    assert_eq!(
        seen,
        vec![ActorStatus::Starting, ActorStatus::Started, ActorStatus::Stopping, ActorStatus::Stopped]
    );
}

#[test]
fn may_advance_to_follows_the_lifecycle_order() {
    let order = [ActorStatus::Starting, ActorStatus::Started, ActorStatus::Stopping, ActorStatus::Stopped];
    for (i, from) in order.iter().enumerate() {
        for (j, to) in order.iter().enumerate() {
            assert_eq!(from.may_advance_to(*to), i <= j);
        }
    }
}

#[test]
fn a_second_message_is_rejected_while_a_handler_runs() {
    let mut ctx = ActorContext::new(None, ActorStatus::Starting, boxed("a", "A"));
    let mut actor_loop = started(&mut ctx, ActorType::Anonymous);
    assert!(!actor_loop.is_handling());
    actor_loop.step(&mut ctx, LoopEvent::Received).unwrap();
    assert!(actor_loop.is_handling());
    match actor_loop.step(&mut ctx, LoopEvent::Received) {
        Err(rejected) => assert_eq!(rejected, Rejected { phase: LoopPhase::Handling }),
        Ok(action) => panic!("a second handler must not start: {:?}", action),
    }
    assert!(actor_loop.is_handling());
    assert_eq!(*ctx.get_status(), ActorStatus::Started);
}

#[test]
fn events_out_of_turn_change_nothing() {
    let mut ctx = ActorContext::new(None, ActorStatus::Starting, boxed("a", "A"));
    let mut actor_loop = ActorLoop::new(ActorType::Anonymous);
    for event in [
        LoopEvent::StartedReturned,
        LoopEvent::Received,
        LoopEvent::Handled,
        LoopEvent::StoppedReturned,
        LoopEvent::ChildTerminated("x".to_string()),
    ] {
        let rejected = actor_loop.step(&mut ctx, event).unwrap_err();
        assert_eq!(rejected.phase, LoopPhase::Created);
    }
    assert_eq!(actor_loop.phase(), LoopPhase::Created);
    assert_eq!(*ctx.get_status(), ActorStatus::Starting);
}

#[test]
fn stop_requested_by_the_started_hook_skips_the_main_loop() {
    let mut ctx = ActorContext::new(None, ActorStatus::Starting, boxed("a", "A"));
    let mut actor_loop = ActorLoop::new(ActorType::Anonymous);
    actor_loop.step(&mut ctx, LoopEvent::Begin).unwrap();
    ctx.stop(None);
    assert!(matches!(
        actor_loop.step(&mut ctx, LoopEvent::StartedReturned),
        Ok(LoopAction::RunStopped)
    ));
    assert_eq!(actor_loop.phase(), LoopPhase::Stopping);
    assert!(matches!(
        actor_loop.step(&mut ctx, LoopEvent::StoppedReturned),
        Ok(LoopAction::Complete { .. })
    ));
    assert_eq!(*ctx.get_status(), ActorStatus::Stopped);
}

#[test]
fn a_failed_start_abandons_the_actor() {
    let mut ctx = ActorContext::new(None, ActorStatus::Starting, boxed("a", "A"))
        .with_parent(Some(boxed("p", "P")));
    ctx.attach_child_ref(boxed("kid", "Kid"));
    let mut actor_loop = ActorLoop::new(ActorType::Scheduled);
    actor_loop.step(&mut ctx, LoopEvent::Begin).unwrap();
    match actor_loop.step(&mut ctx, LoopEvent::StartedAborted) {
        Ok(LoopAction::Abandon { children, dropped }) => {
            assert_eq!(children, vec![boxed("kid", "Kid")]);
            assert_eq!(dropped.cause, StopCause::FailedToStart);
            assert_eq!(
                dropped.notice,
                Some(ChildTerminated { parent: boxed("p", "P"), child: "a".to_string() })
            );
        }
        other => panic!("abandon expected: {:?}", other),
    }
    assert_eq!(actor_loop.phase(), LoopPhase::Failed);
    assert!(actor_loop.step(&mut ctx, LoopEvent::StartedReturned).is_err());
}

#[test]
fn a_scheduled_actor_in_a_system_is_deregistered() {
    let mut ctx = ActorContext::new(Some(ActorSystem::new(9)), ActorStatus::Starting, boxed("a", "A"));
    let mut actor_loop = started(&mut ctx, ActorType::Scheduled);
    actor_loop.step(&mut ctx, LoopEvent::MailboxClosed).unwrap();
    match actor_loop.step(&mut ctx, LoopEvent::StoppedReturned) {
        Ok(LoopAction::Complete { deregister, .. }) => assert_eq!(deregister, Some("a".to_string())),
        other => panic!("complete expected: {:?}", other),
    }

    let mut no_system = ActorContext::new(None, ActorStatus::Starting, boxed("b", "B"));
    let mut actor_loop = started(&mut no_system, ActorType::Scheduled);
    actor_loop.step(&mut no_system, LoopEvent::MailboxClosed).unwrap();
    match actor_loop.step(&mut no_system, LoopEvent::StoppedReturned) {
        Ok(LoopAction::Complete { deregister, .. }) => assert_eq!(deregister, None),
        other => panic!("complete expected: {:?}", other),
    }
}

#[test]
fn actor_type_is_tracked() {
    assert!(ActorType::Scheduled.is_tracked());
    assert!(!ActorType::Anonymous.is_tracked());
}

#[test]
fn status_message_answers_with_the_status() {
    let mut ctx = ActorContext::new(None, ActorStatus::Started, boxed("a", "A"));
    assert_eq!(Status().handle(&ctx), ActorStatus::Started);
    ctx.set_status(ActorStatus::Stopped);
    assert_eq!(Status().handle(&ctx), ActorStatus::Stopped);
}

#[test]
fn mailbox_is_first_in_first_out() {
    let mut mailbox: Mailbox<u32> = Mailbox::new();
    assert_eq!(mailbox.next(), None);
    for m in [1, 2, 3] {
        assert_eq!(mailbox.notify(m), Ok(()));
    }
    assert_eq!(mailbox.len(), 3);
    assert_eq!(mailbox.next(), Some(1));
    assert_eq!(mailbox.notify(4), Ok(()));
    assert_eq!(mailbox.next(), Some(2));
    assert!(!mailbox.is_closed());
    assert_eq!(mailbox.close(), vec![3, 4]);
    assert!(mailbox.is_closed());
    assert_eq!(mailbox.notify(5), Err(ActorRefErr::ActorUnavailable));
    assert_eq!(mailbox.next(), None);
    assert_eq!(mailbox.len(), 0);
}

#[test]
fn send_result_names_each_way_a_send_can_end() {
    assert_eq!(send_result(Ok(()), ReplyOutcome::Answered(7)), Ok(7));
    assert_eq!(send_result::<u8>(Ok(()), ReplyOutcome::SinkDropped), Err(ActorRefErr::ResultSendFailed));
    assert_eq!(send_result::<u8>(Ok(()), ReplyOutcome::Undelivered), Err(ActorRefErr::ActorUnavailable));
    assert_eq!(
        send_result::<u8>(Ok(()), ReplyOutcome::CallerCancelled),
        Err(ActorRefErr::ResultChannelClosed)
    );
    assert_eq!(
        send_result(Err(ActorRefErr::ActorUnavailable), ReplyOutcome::Answered(7)),
        Err(ActorRefErr::ActorUnavailable)
    );
}

#[test]
fn handler_context_keeps_the_status() {
    let mut ctx = ActorHandlerContext::new(ActorStatus::Starting);
    assert_eq!(*ctx.get_status(), ActorStatus::Starting);
    ctx.set_status(ActorStatus::Stopping);
    assert_eq!(*ctx.get_status(), ActorStatus::Stopping);
}

#[test]
fn context_identifiers_come_from_the_system() {
    let without = ActorContext::new(None, ActorStatus::Starting, boxed("a", "A"));
    assert_eq!(without.ctx_id(), 0);
    assert!(!without.has_system());

    let mut system = ActorSystem::new(3);
    assert_eq!(system.next_context_id(), 1);
    assert_eq!(system.next_context_id(), 2);
    let with = ActorContext::new(Some(system), ActorStatus::Starting, boxed("b", "B"));
    assert_eq!(with.ctx_id(), 3);
    assert_eq!(with.system().next_context, 4);
    assert_eq!(with.id(), "b");
    assert!(with.is_starting());

    let mut last = ActorSystem { system_id: 1, next_context: u64::MAX, terminated: false, remote: false };
    assert_eq!(last.next_context_id(), u64::MAX);
    assert_eq!(last.next_context_id(), 0);
}

#[test]
fn system_flags() {
    let mut system = ActorSystem::new(1);
    assert!(!system.is_terminated());
    assert!(!system.is_remote());
    system.set_remote();
    system.shutdown();
    assert!(system.is_terminated());
    assert!(system.is_remote());
}

#[test]
fn context_children_and_parent() {
    let mut ctx = ActorContext::new(None, ActorStatus::Started, boxed("p", "Parent"));
    assert!(ctx.supervised().is_none());
    assert!(ctx.has_no_children());
    assert_eq!(ctx.boxed_child_ref(&"c".to_string()), None);

    ctx.attach_child_ref(boxed("c", "Child"));
    assert_eq!(ctx.supervised_count(), 1);
    assert!(ctx.supervised().is_some());
    assert_eq!(ctx.boxed_child_ref(&"c".to_string()), Some(boxed("c", "Child")));
    assert_eq!(
        ctx.child_ref(&"c".to_string(), &"Child".to_string()),
        Some(LocalActorRef::new("c".to_string(), "Child".to_string()))
    );
    assert_eq!(ctx.child_ref(&"c".to_string(), &"Other".to_string()), None);
    assert_eq!(ctx.child_ref(&"d".to_string(), &"Child".to_string()), None);

    ctx.attach_child_ref(boxed("c", "Changed"));
    assert_eq!(ctx.supervised_count(), 1);
    assert_eq!(ctx.boxed_child_ref(&"c".to_string()), Some(boxed("c", "Changed")));

    assert!(!ctx.child_terminated(&"zz".to_string()));
    assert!(ctx.child_terminated(&"c".to_string()));
    assert!(!ctx.child_terminated(&"c".to_string()));
    assert_eq!(ctx.supervised_count(), 0);

    assert_eq!(ctx.boxed_parent(), None);
    assert_eq!(ctx.parent(&"Root".to_string()), None);
    let ctx = ctx.with_parent(Some(boxed("root", "Root")));
    assert_eq!(ctx.boxed_parent(), Some(boxed("root", "Root")));
    assert_eq!(
        ctx.parent(&"Root".to_string()),
        Some(LocalActorRef::new("root".to_string(), "Root".to_string()))
    );
    assert_eq!(ctx.parent(&"Other".to_string()), None);
    assert_eq!(
        ctx.actor_ref(&"Parent".to_string()),
        Ok(LocalActorRef::new("p".to_string(), "Parent".to_string()))
    );
    assert_eq!(ctx.actor_ref(&"Other".to_string()), Err(ActorRefErr::InvalidRef));
    assert_eq!(ctx.boxed_actor_ref(), boxed("p", "Parent"));
}

#[test]
fn downcast_needs_the_matching_type_tag() {
    let actor = boxed("a", "Echo");
    assert_eq!(
        actor.downcast(&"Echo".to_string()),
        Ok(LocalActorRef::new("a".to_string(), "Echo".to_string()))
    );
    assert_eq!(actor.downcast(&"Other".to_string()), Err(ActorRefErr::InvalidRef));
    assert_eq!(actor.as_actor(&"Other".to_string()), None);
    assert_eq!(actor.actor_id(), "a");
    assert_eq!(actor.actor_type(), "Echo");
    assert_eq!(actor.duplicate(), actor);
}

#[test]
fn tags_default_to_untagged() {
    let mut ctx = ActorContext::new(None, ActorStatus::Started, boxed("a", "A"));
    assert_eq!(ctx.tags(), ActorTags::Untagged);
    ctx.set_tags(ActorTags::Tag("blue".to_string()));
    assert_eq!(ctx.tags(), ActorTags::Tag("blue".to_string()));
    ctx.set_tags(ActorTags::Tags(vec!["a".to_string(), "b".to_string()]));
    assert_eq!(ctx.tags(), ActorTags::Tags(vec!["a".to_string(), "b".to_string()]));
}

#[test]
fn stop_subscribers_are_kept_in_order_and_handed_out_once() {
    let mut ctx = ActorContext::new(None, ActorStatus::Started, boxed("a", "A"));
    assert!(ctx.take_on_stopped_handlers().is_none());
    let (first, mut first_rx) = tokio::sync::oneshot::channel::<()>();
    let (second, mut second_rx) = tokio::sync::oneshot::channel::<()>();
    ctx.add_on_stopped_handler(first);
    ctx.stop(Some(second));
    assert_eq!(*ctx.get_status(), ActorStatus::Stopping);
    let mut handlers = ctx.take_on_stopped_handlers().expect("two subscribed");
    assert_eq!(handlers.len(), 2);
    handlers.remove(0).send(()).unwrap();
    assert!(first_rx.try_recv().is_ok());
    assert!(second_rx.try_recv().is_err());
    handlers.remove(0).send(()).unwrap();
    assert!(second_rx.try_recv().is_ok());
    assert!(ctx.take_on_stopped_handlers().is_none());
}

#[test]
fn release_hands_out_children_and_notice() {
    let mut ctx = ActorContext::new(Some(ActorSystem::new(1)), ActorStatus::Started, boxed("a", "A"))
        .with_parent(Some(boxed("p", "P")));
    ctx.attach_child_ref(boxed("k1", "K"));
    ctx.attach_child_ref(boxed("k2", "K"));
    let mut listed = ctx.children_to_stop();
    listed.sort_by(|a, b| a.actor_id.cmp(&b.actor_id));
    assert_eq!(listed, vec![boxed("k1", "K"), boxed("k2", "K")]);
    let release = ctx.release();
    let mut children = release.stop_children;
    children.sort_by(|a, b| a.actor_id.cmp(&b.actor_id));
    assert_eq!(children, vec![boxed("k1", "K"), boxed("k2", "K")]);
    assert_eq!(release.dropped.cause, StopCause::StoppedUnexpectedly);
    assert_eq!(
        release.dropped.notice,
        Some(ChildTerminated { parent: boxed("p", "P"), child: "a".to_string() })
    );
}

#[test]
fn dropped_contexts_are_classified_by_status_and_system() {
    let actor = boxed("a", "A");
    let running = Some(ActorSystem::new(1));
    let mut down = ActorSystem::new(1);
    down.shutdown();
    let down = Some(down);
    let cases = [
        (ActorStatus::Starting, None, StopCause::FailedToStart),
        (ActorStatus::Starting, down, StopCause::FailedToStart),
        (ActorStatus::Started, None, StopCause::StoppedUnexpectedly),
        (ActorStatus::Started, running, StopCause::StoppedUnexpectedly),
        (ActorStatus::Started, down, StopCause::SystemShutdown),
        (ActorStatus::Stopping, None, StopCause::StopIncomplete),
        (ActorStatus::Stopping, running, StopCause::StopIncomplete),
        (ActorStatus::Stopping, down, StopCause::SystemShutdown),
        (ActorStatus::Stopped, running, StopCause::Stopped),
        (ActorStatus::Stopped, down, StopCause::Stopped),
    ];
    for (status, system, cause) in cases {
        let dropped = on_context_dropped(&actor, &None, &status, &system);
        assert_eq!(dropped.cause, cause);
        assert_eq!(dropped.notice, None);
    }
    let dropped = on_context_dropped(&actor, &Some(boxed("p", "P")), &ActorStatus::Stopped, &None);
    assert_eq!(dropped.notice, Some(ChildTerminated { parent: boxed("p", "P"), child: "a".to_string() }));
}

#[test]
fn attached_streams_end_on_error_or_end() {
    let stop = StreamAttachmentOptions::default();
    assert!(stop.stop_on_stream_end());
    let stay = StreamAttachmentOptions::new(false);
    assert_eq!(attach_stream(&stop, StreamItem::Item(Some(5))), StreamStep::Notify(5));
    assert_eq!(attach_stream::<u8>(&stop, StreamItem::Item(None)), StreamStep::Skip);
    assert_eq!(attach_stream::<u8>(&stop, StreamItem::Failed), StreamStep::End { stop_actor: true });
    assert_eq!(attach_stream::<u8>(&stop, StreamItem::Finished), StreamStep::End { stop_actor: true });
    assert_eq!(attach_stream::<u8>(&stay, StreamItem::Finished), StreamStep::End { stop_actor: false });
}

#[test]
fn the_supervision_table_can_be_changed_in_place() {
    let mut ctx = ActorContext::new(None, ActorStatus::Started, boxed("p", "Parent"));
    assert!(ctx.supervised_mut().is_none());
    ctx.attach_child_ref(boxed("c1", "Child"));
    {
        let table = ctx.supervised_mut().expect("a table was set up");
        table.attach_child_ref(boxed("c2", "Child"));
        assert!(table.on_child_terminated(&"c1".to_string()));
        assert_eq!(table.count(), 1);
        assert!(!table.is_empty());
    }
    assert_eq!(ctx.supervised_count(), 1);
    assert_eq!(ctx.boxed_child_ref(&"c2".to_string()), Some(boxed("c2", "Child")));
    assert_eq!(ctx.boxed_child_ref(&"c1".to_string()), None);
    let table = ctx.supervised_mut().unwrap();
    let child = table.spawn("c3".to_string(), "Child".to_string());
    assert_eq!(child, LocalActorRef::new("c3".to_string(), "Child".to_string()));
    let mut stopping: Vec<String> = table.stop_all().into_iter().map(|c| c.actor_id).collect();
    stopping.sort();
    assert_eq!(stopping, vec!["c2".to_string(), "c3".to_string()]);
    assert!(table.is_empty());
    assert!(ctx.has_no_children());
}

#[test]
fn handles_know_where_their_target_lives() {
    let local = ActorRef::Local(LocalActorRef::new("a".to_string(), "A".to_string()));
    let remote = ActorRef::Remote(RemoteActorRef {
        id: "a".to_string(),
        node_id: 3,
        actor_type: "A".to_string(),
    });
    let other = ActorRef::Local(LocalActorRef::new("b".to_string(), "A".to_string()));
    assert_eq!(local.actor_id(), "a");
    assert_eq!(local.node_id(), None);
    assert_eq!(remote.node_id(), Some(3));
    assert!(remote.is_remote());
    assert!(!local.is_remote());
    assert!(local.same_target(&remote));
    assert!(!local.same_target(&other));
    assert_eq!(local.as_local(), Ok(LocalActorRef::new("a".to_string(), "A".to_string())));
    assert_eq!(remote.as_local(), Err(ActorRefErr::NotSupported));
    assert_eq!(local.as_remote(), Err(ActorRefErr::NotSupported));
    assert_eq!(
        remote.as_remote(),
        Ok(RemoteActorRef { id: "a".to_string(), node_id: 3, actor_type: "A".to_string() })
    );
}

#[test]
fn the_status_does_not_go_back() {
    let mut ctx = ActorContext::new(None, ActorStatus::Starting, boxed("a", "A"));
    ctx.set_status(ActorStatus::Stopping);
    ctx.set_status(ActorStatus::Started);
    assert_eq!(*ctx.get_status(), ActorStatus::Stopping);
    ctx.set_status(ActorStatus::Stopping);
    assert_eq!(*ctx.get_status(), ActorStatus::Stopping);
    ctx.set_status(ActorStatus::Stopped);
    ctx.set_status(ActorStatus::Starting);
    assert_eq!(*ctx.get_status(), ActorStatus::Stopped);
    ctx.stop(None);
    assert_eq!(*ctx.get_status(), ActorStatus::Stopped);
    assert_eq!(Stop().handle(&mut ctx), ActorStatus::Stopping);
    assert_eq!(*ctx.get_status(), ActorStatus::Stopped);

    let mut small = ActorHandlerContext::new(ActorStatus::Started);
    small.set_status(ActorStatus::Starting);
    assert_eq!(*small.get_status(), ActorStatus::Started);
    small.set_status(ActorStatus::Stopped);
    assert_eq!(*small.get_status(), ActorStatus::Stopped);
}

#[test]
fn a_hook_that_writes_stopped_does_not_bring_the_actor_back() {
    let mut ctx = ActorContext::new(None, ActorStatus::Starting, boxed("a", "A"));
    let mut actor_loop = ActorLoop::new(ActorType::Anonymous);
    actor_loop.step(&mut ctx, LoopEvent::Begin).unwrap();
    ctx.set_status(ActorStatus::Stopped);
    assert!(matches!(actor_loop.step(&mut ctx, LoopEvent::StartedReturned), Ok(LoopAction::Ready)));
    assert_eq!(*ctx.get_status(), ActorStatus::Stopped);
}

#[test]
fn the_count_grows_by_one_with_each_new_child() {
    let mut ctx = ActorContext::new(None, ActorStatus::Started, boxed("p", "Parent"));
    for (k, id) in ["c1", "c2", "c3"].iter().enumerate() {
        assert_eq!(ctx.supervised_count(), k);
        let (child, parent) = ctx.spawn(id.to_string(), "Child".to_string());
        assert_eq!(child.id, *id);
        assert_eq!(parent, ctx.boxed_actor_ref());
        assert_eq!(ctx.supervised_count(), k + 1);
        assert_eq!(ctx.boxed_child_ref(&id.to_string()), Some(child.into_boxed()));
    }
    ctx.spawn("c2".to_string(), "Child".to_string());
    assert_eq!(ctx.supervised_count(), 3);
    assert_eq!(*ctx.get_status(), ActorStatus::Started);
    assert_eq!(ctx.boxed_parent(), None);
}

#[test]
fn taking_subscribers_gives_none_exactly_when_nobody_waits() {
    let mut ctx = ActorContext::new(None, ActorStatus::Started, boxed("a", "A"));
    assert!(ctx.take_on_stopped_handlers().is_none());
    ctx.stop(None);
    assert!(ctx.take_on_stopped_handlers().is_none());
    let (tx, _rx) = tokio::sync::oneshot::channel::<()>();
    ctx.stop(Some(tx));
    assert_eq!(ctx.take_on_stopped_handlers().map(|h| h.len()), Some(1));
    assert!(ctx.take_on_stopped_handlers().is_none());
}

//! The life of one actor, as a state machine. The runtime owns the actor,
//! its mailbox and its context; it tells the machine what happened, and the
//! machine says what to do next.

use vstd::prelude::*;
use tokio::sync::oneshot::Sender;
use crate::actor::table::ActorId;
use crate::actor::refs::BoxedActorRef;
use crate::actor::context::{
    stop_cause, system_terminated, ActorContext, ActorStatus, ChildTerminated, ContextDropped,
    ContextView,
};
use crate::actor::supervised::stops_exactly;

verus! {

/// Asks an actor for its status.
pub struct Status();

/// Asks an actor to stop.
pub struct Stop();

impl Status {
    /// Answers with the status of the actor.
    pub fn handle(&self, ctx: &ActorContext) -> (status: ActorStatus)
        ensures
            status == ctx.status(),
    {
        *ctx.get_status()
    }
}

impl Stop {
    /// Moves the status on to `Stopping`, which ends the loop once this
    /// handler has returned, and answers `Stopping`. An actor that has
    /// stopped already stays stopped.
    pub fn handle(&self, ctx: &mut ActorContext) -> (status: ActorStatus)
        ensures
            status == ActorStatus::Stopping,
            final(ctx)@ == (ContextView {
                status: old(ctx)@.status.advanced_to(ActorStatus::Stopping),
                ..old(ctx)@
            }),
            old(ctx).wf() ==> final(ctx).wf(),
    {
        ctx.set_status(ActorStatus::Stopping);
        ActorStatus::Stopping
    }
}

/// Whether the scheduler knows the actor.
#[derive(Debug, Clone, Copy, PartialEq, Eq, Structural)]
pub enum ActorType {
    /// The scheduler holds the actor under its identifier.
    Scheduled,
    /// Only those who hold a handle know the actor.
    Anonymous,
}

impl ActorType {
    pub fn is_tracked(&self) -> (known: bool)
        ensures
            known == (*self == ActorType::Scheduled),
    {
        match self {
            ActorType::Scheduled => true,
            ActorType::Anonymous => false,
        }
    }
}

/// Where the loop of an actor stands.
#[derive(Debug, Clone, Copy, PartialEq, Eq, Structural)]
pub enum LoopPhase {
    /// The context exists; nothing has run yet.
    Created,
    /// The `started` hook is running.
    Starting,
    /// The loop waits for a message. No handler is running.
    Receiving,
    /// The handler of one message is running.
    Handling,
    /// The `stopped` hook is running.
    Stopping,
    /// The actor has stopped and waits for its children to terminate.
    Releasing,
    /// The actor and all its children have stopped.
    Done,
    /// The `started` hook did not return. Nothing follows.
    Failed,
}

/// What the runtime reports to the loop.
#[derive(Debug, PartialEq, Eq)]
pub enum LoopEvent {
    /// The loop is to begin.
    Begin,
    /// The `started` hook returned.
    StartedReturned,
    /// The `started` hook did not return.
    StartedAborted,
    /// A message arrived and its handler is about to run.
    Received,
    /// The mailbox is closed: no message will arrive.
    MailboxClosed,
    /// The handler of the message in progress returned.
    Handled,
    /// The `stopped` hook returned.
    StoppedReturned,
    /// The child with this identifier has terminated.
    ChildTerminated(ActorId),
}

/// The kind of a [`LoopEvent`].
#[derive(Debug, Clone, Copy, PartialEq, Eq, Structural)]
pub enum EventKind {
    Begin,
    StartedReturned,
    StartedAborted,
    Received,
    MailboxClosed,
    Handled,
    StoppedReturned,
    ChildTerminated,
}

impl LoopEvent {
    pub open spec fn kind(&self) -> EventKind {
        match self {
            LoopEvent::Begin => EventKind::Begin,
            LoopEvent::StartedReturned => EventKind::StartedReturned,
            LoopEvent::StartedAborted => EventKind::StartedAborted,
            LoopEvent::Received => EventKind::Received,
            LoopEvent::MailboxClosed => EventKind::MailboxClosed,
            LoopEvent::Handled => EventKind::Handled,
            LoopEvent::StoppedReturned => EventKind::StoppedReturned,
            LoopEvent::ChildTerminated(_) => EventKind::ChildTerminated,
        }
    }
}

/// What the loop asks of the runtime.
#[derive(Debug)]
pub enum LoopAction {
    /// Run the `started` hook.
    RunStarted,
    /// Tell whoever waits for the start that the actor is ready, then wait
    /// for a message.
    Ready,
    /// Wait for a message.
    Receive,
    /// Run the handler of the message that arrived, to its end.
    Handle,
    /// Run the `stopped` hook.
    RunStopped,
    /// Remove the actor from the scheduler if `deregister` names it, ask
    /// each of `children` to stop, and report their termination.
    StopChildren { deregister: Option<ActorId>, children: Vec<BoxedActorRef> },
    /// Keep waiting for children to terminate.
    AwaitChildren,
    /// The actor and its children have stopped. Remove the actor from the
    /// scheduler if `deregister` names it, signal each of `subscribers`, and
    /// give the parent the notice in `dropped`.
    Complete { deregister: Option<ActorId>, subscribers: Vec<Sender<()>>, dropped: ContextDropped },
    /// The actor never started. Ask each of `children` to stop and give the
    /// parent the notice in `dropped`; nobody is signalled.
    Abandon { children: Vec<BoxedActorRef>, dropped: ContextDropped },
}

/// The event was not expected in the phase the loop stands in. Nothing
/// changed.
#[derive(Debug, PartialEq, Eq)]
pub struct Rejected {
    pub phase: LoopPhase,
}

/// The phase that follows `phase` on an event of kind `event`, where the
/// status before the event is `status` and `children_left` says whether any
/// child remains once the event is accounted for. `None` where the event is
/// not expected in `phase`.
pub open spec fn next_phase(
    phase: LoopPhase,
    status: ActorStatus,
    children_left: bool,
    event: EventKind,
) -> Option<LoopPhase> {
    match (phase, event) {
        (LoopPhase::Created, EventKind::Begin) => Some(LoopPhase::Starting),
        (LoopPhase::Starting, EventKind::StartedReturned) => Some(
            if status == ActorStatus::Stopping {
                LoopPhase::Stopping
            } else {
                LoopPhase::Receiving
            },
        ),
        (LoopPhase::Starting, EventKind::StartedAborted) => Some(LoopPhase::Failed),
        (LoopPhase::Receiving, EventKind::Received) => Some(LoopPhase::Handling),
        (LoopPhase::Receiving, EventKind::MailboxClosed) => Some(LoopPhase::Stopping),
        (LoopPhase::Handling, EventKind::Handled) => Some(
            if status == ActorStatus::Stopping {
                LoopPhase::Stopping
            } else {
                LoopPhase::Receiving
            },
        ),
        (LoopPhase::Stopping, EventKind::StoppedReturned) => Some(
            if children_left {
                LoopPhase::Releasing
            } else {
                LoopPhase::Done
            },
        ),
        (LoopPhase::Releasing, EventKind::ChildTerminated) => Some(
            if children_left {
                LoopPhase::Releasing
            } else {
                LoopPhase::Done
            },
        ),
        _ => None,
    }
}

/// The status the loop leaves behind on an accepted event.
pub open spec fn next_status(phase: LoopPhase, status: ActorStatus, event: EventKind) -> ActorStatus {
    match (phase, event) {
        (LoopPhase::Starting, EventKind::StartedReturned) => if status == ActorStatus::Stopping {
            ActorStatus::Stopping
        } else {
            status.advanced_to(ActorStatus::Started)
        },
        (LoopPhase::Receiving, EventKind::MailboxClosed) => status.advanced_to(
            ActorStatus::Stopping,
        ),
        (LoopPhase::Stopping, EventKind::StoppedReturned) => status.advanced_to(
            ActorStatus::Stopped,
        ),
        _ => status,
    }
}

/// The statuses an actor can have in each phase, as long as hooks and
/// handlers leave the status alone or set it to `Stopping`.
pub open spec fn status_fits(phase: LoopPhase, status: ActorStatus) -> bool {
    match phase {
        LoopPhase::Created => status == ActorStatus::Starting,
        LoopPhase::Starting => status == ActorStatus::Starting || status == ActorStatus::Stopping,
        LoopPhase::Receiving => status == ActorStatus::Started,
        LoopPhase::Handling => status == ActorStatus::Started || status == ActorStatus::Stopping,
        LoopPhase::Stopping => status == ActorStatus::Stopping,
        LoopPhase::Releasing => status == ActorStatus::Stopped,
        LoopPhase::Done => status == ActorStatus::Stopped,
        LoopPhase::Failed => true,
    }
}

/// The status never goes back: whatever the phase, the status and the
/// event, the loop leaves a status that is the same or a later one.
pub proof fn lemma_status_monotone(phase: LoopPhase, status: ActorStatus, event: EventKind)
    ensures
        status.rank() <= next_status(phase, status, event).rank(),
{
}

/// The status keeps step with the phase: where the status fits the phase,
/// an accepted event leaves a status that fits the phase that follows.
pub proof fn lemma_status_fits(
    phase: LoopPhase,
    status: ActorStatus,
    children_left: bool,
    event: EventKind,
)
    requires
        status_fits(phase, status),
        next_phase(phase, status, children_left, event).is_some(),
    ensures
        status_fits(
            next_phase(phase, status, children_left, event).unwrap(),
            next_status(phase, status, event),
        ),
{
}

/// One handler at a time: a handler starts only from the phase in which none
/// is running, and while one is running the only event accepted is its
/// return.
pub proof fn lemma_single_handler(
    phase: LoopPhase,
    status: ActorStatus,
    children_left: bool,
    event: EventKind,
)
    ensures
        next_phase(phase, status, children_left, event) == Some(LoopPhase::Handling) ==> phase
            == LoopPhase::Receiving && event == EventKind::Received,
        phase == LoopPhase::Handling && next_phase(phase, status, children_left, event).is_some()
            ==> event == EventKind::Handled,
{
}

/// The hooks run in order and once: `started` runs only at the beginning,
/// `stopped` only after `started` has returned, and after `stopped` no hook
/// or handler runs again.
pub proof fn lemma_hooks_once(
    phase: LoopPhase,
    status: ActorStatus,
    children_left: bool,
    event: EventKind,
)
    ensures
        next_phase(phase, status, children_left, event) == Some(LoopPhase::Starting) ==> phase
            == LoopPhase::Created,
        next_phase(phase, status, children_left, event) == Some(LoopPhase::Stopping) ==> phase
            == LoopPhase::Starting || phase == LoopPhase::Receiving || phase == LoopPhase::Handling,
        phase == LoopPhase::Releasing || phase == LoopPhase::Done || phase == LoopPhase::Failed
            ==> {
            let next = next_phase(phase, status, children_left, event);
            next.is_none() || next == Some(LoopPhase::Releasing) || next == Some(LoopPhase::Done)
        },
{
}

/// Children stop first: the loop is done only when the status is `Stopped`
/// and no child is left.
pub proof fn lemma_done_after_children(
    phase: LoopPhase,
    status: ActorStatus,
    children_left: bool,
    event: EventKind,
)
    requires
        status_fits(phase, status),
        next_phase(phase, status, children_left, event) == Some(LoopPhase::Done),
    ensures
        !children_left,
        next_status(phase, status, event) == ActorStatus::Stopped,
{
}

/// The loop of one actor.
pub struct ActorLoop {
    phase: LoopPhase,
    actor_type: ActorType,
}

impl ActorLoop {
    pub closed spec fn phase_spec(&self) -> LoopPhase {
        self.phase
    }

    pub closed spec fn actor_type_spec(&self) -> ActorType {
        self.actor_type
    }

    /// A loop that has not begun, for an actor of the given kind.
    pub fn new(actor_type: ActorType) -> (l: ActorLoop)
        ensures
            l.phase_spec() == LoopPhase::Created,
            l.actor_type_spec() == actor_type,
    {
        ActorLoop { phase: LoopPhase::Created, actor_type }
    }

    pub fn phase(&self) -> (phase: LoopPhase)
        ensures
            phase == self.phase_spec(),
    {
        self.phase
    }

    /// Whether a handler is running.
    pub fn is_handling(&self) -> (handling: bool)
        ensures
            handling == (self.phase_spec() == LoopPhase::Handling),
    {
        self.phase == LoopPhase::Handling
    }

    /// The children that remain once `event` is accounted for.
    pub open spec fn children_after(
        children: Map<Seq<char>, BoxedActorRef>,
        event: LoopEvent,
    ) -> Map<Seq<char>, BoxedActorRef> {
        match event {
            LoopEvent::ChildTerminated(id) => children.remove(id@),
            _ => children,
        }
    }

    /// The scheduler entry to remove when the actor has stopped: its own, if
    /// the scheduler holds the actor and it runs in a system.
    pub open spec fn deregisters(actor_type: ActorType, ctx: ContextView) -> Option<ActorId> {
        if actor_type == ActorType::Scheduled && ctx.system.is_some() {
            Some(ctx.self_ref.actor_id)
        } else {
            None
        }
    }

    /// The context that an accepted event leaves behind: the status moves on
    /// as [`next_status`] says, a terminated child leaves the table, and the
    /// subscribers are handed out when the loop is done.
    pub open spec fn next_context(phase: LoopPhase, ctx: ContextView, event: LoopEvent) -> ContextView {
        let children = Self::children_after(ctx.children, event);
        let left = children != Map::<Seq<char>, BoxedActorRef>::empty();
        let done = next_phase(phase, ctx.status, left, event.kind()) == Some(LoopPhase::Done);
        ContextView {
            status: next_status(phase, ctx.status, event.kind()),
            children: if phase == LoopPhase::Releasing {
                children
            } else {
                ctx.children
            },
            subscribers: if done {
                Seq::empty()
            } else {
                ctx.subscribers
            },
            ..ctx
        }
    }

    /// Whether `action` is what the loop asks for after an accepted event
    /// that led from `phase` with context `before` to `next` with context
    /// `after`.
    pub open spec fn action_fits(
        action: LoopAction,
        actor_type: ActorType,
        phase: LoopPhase,
        before: ContextView,
        next: LoopPhase,
        after: ContextView,
    ) -> bool {
        match next {
            LoopPhase::Created => false,
            LoopPhase::Starting => action is RunStarted,
            LoopPhase::Receiving => if phase == LoopPhase::Starting {
                action is Ready
            } else {
                action is Receive
            },
            LoopPhase::Handling => action is Handle,
            LoopPhase::Stopping => action is RunStopped,
            LoopPhase::Releasing => if phase == LoopPhase::Stopping {
                &&& action is StopChildren
                &&& action->StopChildren_deregister == Self::deregisters(actor_type, before)
                &&& stops_exactly(action->StopChildren_children@, after.children)
            } else {
                action is AwaitChildren
            },
            LoopPhase::Done => {
                &&& action is Complete
                &&& action->Complete_deregister == (if phase == LoopPhase::Stopping {
                    Self::deregisters(actor_type, before)
                } else {
                    None
                })
                &&& action->Complete_subscribers@ == before.subscribers
                &&& action->Complete_dropped.cause == stop_cause(
                    after.status,
                    system_terminated(after.system),
                )
                &&& action->Complete_dropped.notice == (match after.parent_ref {
                    Some(parent) => Some(
                        ChildTerminated { parent, child: after.self_ref.actor_id },
                    ),
                    None => None::<ChildTerminated>,
                })
            },
            LoopPhase::Failed => {
                &&& action is Abandon
                &&& stops_exactly(action->Abandon_children@, after.children)
                &&& action->Abandon_dropped.cause == stop_cause(
                    after.status,
                    system_terminated(after.system),
                )
                &&& action->Abandon_dropped.notice == (match after.parent_ref {
                    Some(parent) => Some(
                        ChildTerminated { parent, child: after.self_ref.actor_id },
                    ),
                    None => None::<ChildTerminated>,
                })
            },
        }
    }

    /// Takes note of `event` and says what to do next. An event that the
    /// current phase does not expect is rejected and changes nothing.
    pub fn step(&mut self, ctx: &mut ActorContext, event: LoopEvent) -> (r: Result<
        LoopAction,
        Rejected,
    >)
        requires
            old(ctx).wf(),
        ensures
            final(ctx).wf(),
            final(self).actor_type_spec() == old(self).actor_type_spec(),
            ({
                let phase = old(self).phase_spec();
                let before = old(ctx)@;
                let left = Self::children_after(before.children, event) != Map::<
                    Seq<char>,
                    BoxedActorRef,
                >::empty();
                let next = next_phase(phase, before.status, left, event.kind());
                match r {
                    Ok(action) => {
                        &&& next == Some(final(self).phase_spec())
                        &&& final(ctx)@ == Self::next_context(phase, before, event)
                        &&& Self::action_fits(
                            action,
                            old(self).actor_type_spec(),
                            phase,
                            before,
                            final(self).phase_spec(),
                            final(ctx)@,
                        )
                    },
                    Err(rejected) => {
                        &&& next.is_none()
                        &&& rejected.phase == phase
                        &&& final(self).phase_spec() == phase
                        &&& final(ctx)@ == before
                    },
                }
            }),
    {
        let phase = self.phase;
        match (phase, event) {
            (LoopPhase::Created, LoopEvent::Begin) => {
                self.phase = LoopPhase::Starting;
                Ok(LoopAction::RunStarted)
            },
            (LoopPhase::Starting, LoopEvent::StartedReturned) => {
                match ctx.get_status() {
                    ActorStatus::Stopping => {
                        self.phase = LoopPhase::Stopping;
                        Ok(LoopAction::RunStopped)
                    },
                    _ => {
                        ctx.set_status(ActorStatus::Started);
                        self.phase = LoopPhase::Receiving;
                        Ok(LoopAction::Ready)
                    },
                }
            },
            (LoopPhase::Starting, LoopEvent::StartedAborted) => {
                self.phase = LoopPhase::Failed;
                let children = ctx.children_to_stop();
                let dropped = ctx.dropped();
                Ok(LoopAction::Abandon { children, dropped })
            },
            (LoopPhase::Receiving, LoopEvent::Received) => {
                self.phase = LoopPhase::Handling;
                Ok(LoopAction::Handle)
            },
            (LoopPhase::Receiving, LoopEvent::MailboxClosed) => {
                ctx.set_status(ActorStatus::Stopping);
                self.phase = LoopPhase::Stopping;
                Ok(LoopAction::RunStopped)
            },
            (LoopPhase::Handling, LoopEvent::Handled) => {
                match ctx.get_status() {
                    ActorStatus::Stopping => {
                        self.phase = LoopPhase::Stopping;
                        Ok(LoopAction::RunStopped)
                    },
                    _ => {
                        self.phase = LoopPhase::Receiving;
                        Ok(LoopAction::Receive)
                    },
                }
            },
            (LoopPhase::Stopping, LoopEvent::StoppedReturned) => {
                ctx.set_status(ActorStatus::Stopped);
                let deregister = if self.actor_type.is_tracked() && ctx.has_system() {
                    Some(ctx.id().clone())
                } else {
                    None
                };
                if ctx.has_no_children() {
                    self.phase = LoopPhase::Done;
                    Ok(self.complete(ctx, deregister))
                } else {
                    self.phase = LoopPhase::Releasing;
                    let children = ctx.children_to_stop();
                    Ok(LoopAction::StopChildren { deregister, children })
                }
            },
            (LoopPhase::Releasing, LoopEvent::ChildTerminated(id)) => {
                let _ = ctx.child_terminated(&id);
                if ctx.has_no_children() {
                    self.phase = LoopPhase::Done;
                    Ok(self.complete(ctx, None))
                } else {
                    Ok(LoopAction::AwaitChildren)
                }
            },
            _ => Err(Rejected { phase }),
        }
    }

    fn complete(&self, ctx: &mut ActorContext, deregister: Option<ActorId>) -> (action: LoopAction)
        requires
            old(ctx).wf(),
        ensures
            final(ctx).wf(),
            final(ctx)@ == (ContextView { subscribers: Seq::empty(), ..old(ctx)@ }),
            action is Complete,
            action->Complete_deregister == deregister,
            action->Complete_subscribers@ == old(ctx)@.subscribers,
            action->Complete_dropped.cause == stop_cause(
                old(ctx)@.status,
                system_terminated(old(ctx)@.system),
            ),
            action->Complete_dropped.notice == (match old(ctx)@.parent_ref {
                Some(parent) => Some(
                    ChildTerminated { parent, child: old(ctx)@.self_ref.actor_id },
                ),
                None => None::<ChildTerminated>,
            }),
    {
        let subscribers = match ctx.take_on_stopped_handlers() {
            Some(handlers) => handlers,
            None => Vec::new(),
        };
        let dropped = ctx.dropped();
        LoopAction::Complete { deregister, subscribers, dropped }
    }
}

} // verus!

//! The state an actor's handlers see: status, identity, parent, supervised
//! children, and the subscribers waiting for the actor to stop.

use vstd::prelude::*;
use tokio::sync::oneshot::Sender;
use crate::actor::table::ActorId;
use crate::actor::refs::{ActorRefErr, BoxedActorRef, LocalActorRef};
use crate::actor::supervised::{stops_exactly, Supervised};
use crate::actor::system::ActorSystem;

verus! {

/// The sending half of tokio's one-shot channel. It is declared so that
/// contexts and requests can carry such senders; nothing is claimed of what
/// one holds or does.
#[verifier::external_type_specification]
#[verifier::external_body]
#[verifier::reject_recursive_types(T)]
pub struct ExSender<T>(Sender<T>);

/// Where an actor is in its life. The order of the variants is the order in
/// which an actor passes through them.
#[derive(Debug, Clone, Copy, PartialEq, Eq, Structural)]
pub enum ActorStatus {
    Starting,
    Started,
    Stopping,
    Stopped,
}

impl ActorStatus {
    /// The position of the status in the lifecycle.
    pub open spec fn rank(self) -> nat {
        match self {
            ActorStatus::Starting => 0,
            ActorStatus::Started => 1,
            ActorStatus::Stopping => 2,
            ActorStatus::Stopped => 3,
        }
    }

    /// The status after a request to move on to `next`: `next` where it is
    /// this status or a later one, and this status where `next` would be a
    /// step back.
    pub open spec fn advanced_to(self, next: ActorStatus) -> ActorStatus {
        if self.rank() <= next.rank() {
            next
        } else {
            self
        }
    }

    /// Whether `next` is this status or a later one.
    pub fn may_advance_to(self, next: ActorStatus) -> (ok: bool)
        ensures
            ok == (self.rank() <= next.rank()),
    {
        match (self, next) {
            (ActorStatus::Starting, _) => true,
            (ActorStatus::Started, ActorStatus::Starting) => false,
            (ActorStatus::Started, _) => true,
            (ActorStatus::Stopping, ActorStatus::Stopping) => true,
            (ActorStatus::Stopping, ActorStatus::Stopped) => true,
            (ActorStatus::Stopping, _) => false,
            (ActorStatus::Stopped, ActorStatus::Stopped) => true,
            (ActorStatus::Stopped, _) => false,
        }
    }
}

/// The smallest context a handler can be given: the status alone.
#[derive(Debug)]
pub struct ActorHandlerContext {
    status: ActorStatus,
}

impl ActorHandlerContext {
    pub closed spec fn status(&self) -> ActorStatus {
        self.status
    }

    pub fn new(status: ActorStatus) -> (ctx: ActorHandlerContext)
        ensures
            ctx.status() == status,
    {
        ActorHandlerContext { status }
    }

    /// Moves the status on to `state`. The status only advances: a `state`
    /// that lies before the present status leaves it as it is.
    pub fn set_status(&mut self, state: ActorStatus)
        ensures
            final(self).status() == old(self).status().advanced_to(state),
    {
        if self.status.may_advance_to(state) {
            self.status = state
        }
    }

    pub fn get_status(&self) -> (status: &ActorStatus)
        ensures
            *status == self.status(),
    {
        &self.status
    }
}

/// Labels attached to an actor.
#[derive(Debug, PartialEq, Eq)]
pub enum ActorTags {
    Untagged,
    Tag(String),
    Tags(Vec<String>),
}

impl ActorTags {
    /// The labels, in order.
    pub open spec fn view(&self) -> Seq<Seq<char>> {
        match self {
            ActorTags::Untagged => Seq::empty(),
            ActorTags::Tag(tag) => seq![tag@],
            ActorTags::Tags(tags) => tags@.map_values(|t: String| t@),
        }
    }

    /// Whether both are the same variant.
    pub open spec fn same_kind(&self, other: &ActorTags) -> bool {
        match (self, other) {
            (ActorTags::Untagged, ActorTags::Untagged) => true,
            (ActorTags::Tag(_), ActorTags::Tag(_)) => true,
            (ActorTags::Tags(_), ActorTags::Tags(_)) => true,
            _ => false,
        }
    }

    /// A copy with the same labels.
    pub fn duplicate(&self) -> (copy: ActorTags)
        ensures
            copy@ == self@,
            copy.same_kind(self),
    {
        match self {
            ActorTags::Untagged => ActorTags::Untagged,
            ActorTags::Tag(tag) => ActorTags::Tag(tag.clone()),
            ActorTags::Tags(tags) => {
                let mut copy: Vec<String> = Vec::new();
                let mut i: usize = 0;
                while i < tags.len()
                    invariant
                        i <= tags@.len(),
                        copy@.len() == i,
                        forall|j: int| 0 <= j < i ==> copy@[j]@ == tags@[j]@,
                    decreases tags@.len() - i,
                {
                    copy.push(tags[i].clone());
                    i += 1;
                }
                assert(copy@.map_values(|t: String| t@) =~= tags@.map_values(|t: String| t@));
                ActorTags::Tags(copy)
            },
        }
    }
}

/// Why a context was released, as far as its last status and the state of
/// the system tell.
#[derive(Debug, Clone, Copy, PartialEq, Eq, Structural)]
pub enum StopCause {
    /// The context was released before the actor had started.
    FailedToStart,
    /// The actor was running or stopping when its system shut down.
    SystemShutdown,
    /// The actor was running and nothing had asked it to stop.
    StoppedUnexpectedly,
    /// The actor was stopping and did not finish the stop procedure.
    StopIncomplete,
    /// The actor stopped in the regular way.
    Stopped,
}

/// The notice a released context owes its parent.
#[derive(Debug, PartialEq, Eq)]
pub struct ChildTerminated {
    pub parent: BoxedActorRef,
    pub child: ActorId,
}

/// What follows from the release of a context.
#[derive(Debug, PartialEq, Eq)]
pub struct ContextDropped {
    pub cause: StopCause,
    pub notice: Option<ChildTerminated>,
}

/// The cause recorded for a context released in `status`, in a system that
/// is absent (`None`), running (`Some(false)`) or shut down (`Some(true)`).
pub open spec fn stop_cause(status: ActorStatus, system_terminated: Option<bool>) -> StopCause {
    match status {
        ActorStatus::Starting => StopCause::FailedToStart,
        ActorStatus::Started => if system_terminated == Some(true) {
            StopCause::SystemShutdown
        } else {
            StopCause::StoppedUnexpectedly
        },
        ActorStatus::Stopping => if system_terminated == Some(true) {
            StopCause::SystemShutdown
        } else {
            StopCause::StopIncomplete
        },
        ActorStatus::Stopped => StopCause::Stopped,
    }
}

/// Whether the system, if there is one, has shut down.
pub open spec fn system_terminated(system: Option<ActorSystem>) -> Option<bool> {
    match system {
        Some(s) => Some(s.terminated),
        None => None,
    }
}

/// Classifies the release of the context of `actor` and says whom to tell:
/// the parent, if there is one, is owed a notice naming this actor.
pub fn on_context_dropped(
    actor: &BoxedActorRef,
    parent_ref: &Option<BoxedActorRef>,
    status: &ActorStatus,
    system: &Option<ActorSystem>,
) -> (dropped: ContextDropped)
    ensures
        dropped.cause == stop_cause(*status, system_terminated(*system)),
        dropped.notice == (match *parent_ref {
            Some(parent) => Some(ChildTerminated { parent, child: actor.actor_id }),
            None => None::<ChildTerminated>,
        }),
{
    let terminated = match system {
        Some(s) => Some(s.is_terminated()),
        None => None,
    };
    let cause = match status {
        ActorStatus::Starting => StopCause::FailedToStart,
        ActorStatus::Started => match terminated {
            Some(true) => StopCause::SystemShutdown,
            _ => StopCause::StoppedUnexpectedly,
        },
        ActorStatus::Stopping => match terminated {
            Some(true) => StopCause::SystemShutdown,
            _ => StopCause::StopIncomplete,
        },
        ActorStatus::Stopped => StopCause::Stopped,
    };
    let notice = match parent_ref {
        Some(parent) => Some(
            ChildTerminated { parent: parent.duplicate(), child: actor.actor_id().clone() },
        ),
        None => None,
    };
    ContextDropped { cause, notice }
}

/// What the release of a context asks of the runtime: first stop the
/// children listed, then record the cause and tell the parent.
#[derive(Debug, PartialEq, Eq)]
pub struct ContextRelease {
    pub stop_children: Vec<BoxedActorRef>,
    pub dropped: ContextDropped,
}

/// An [`ActorContext`] as plain values.
pub struct ContextView {
    /// The identifier the system gave the context; 0 without a system.
    pub context_id: u64,
    pub status: ActorStatus,
    /// The actor's own handle.
    pub self_ref: BoxedActorRef,
    /// The parent's handle, for a supervised actor.
    pub parent_ref: Option<BoxedActorRef>,
    pub system: Option<ActorSystem>,
    /// The supervised children, by identifier.
    pub children: Map<Seq<char>, BoxedActorRef>,
    /// Whether a supervision table has been set up.
    pub has_supervised: bool,
    /// Those waiting for the actor to stop, in the order they subscribed.
    pub subscribers: Seq<Sender<()>>,
    pub tags: Option<ActorTags>,
}

/// The private state of one actor, as its handlers see it.
pub struct ActorContext {
    context_id: u64,
    status: ActorStatus,
    boxed_ref: BoxedActorRef,
    boxed_parent_ref: Option<BoxedActorRef>,
    supervised: Option<Supervised>,
    system: Option<ActorSystem>,
    on_actor_stopped: Vec<Sender<()>>,
    tags: Option<ActorTags>,
}

impl ActorContext {
    /// The supervision table, where there is one, is well formed and belongs
    /// to this actor.
    pub closed spec fn wf(&self) -> bool {
        match self.supervised {
            Some(s) => s.wf() && s.parent_id()@ == self.boxed_ref.actor_id@,
            None => true,
        }
    }

    /// The context as plain values.
    pub closed spec fn view(&self) -> ContextView {
        ContextView {
            context_id: self.context_id,
            status: self.status,
            self_ref: self.boxed_ref,
            parent_ref: self.boxed_parent_ref,
            system: self.system,
            children: match self.supervised {
                Some(s) => s@.children,
                None => Map::empty(),
            },
            has_supervised: self.supervised is Some,
            subscribers: self.on_actor_stopped@,
            tags: self.tags,
        }
    }

    pub open spec fn context_id(&self) -> u64 {
        self@.context_id
    }

    pub open spec fn status(&self) -> ActorStatus {
        self@.status
    }

    /// The actor's own handle.
    pub open spec fn self_ref(&self) -> BoxedActorRef {
        self@.self_ref
    }

    /// The parent's handle, for a supervised actor.
    pub open spec fn parent_ref(&self) -> Option<BoxedActorRef> {
        self@.parent_ref
    }

    /// The system, once one is known.
    pub open spec fn system_spec(&self) -> Option<ActorSystem> {
        self@.system
    }

    /// The supervised children, by identifier; empty where the actor never
    /// had any.
    pub open spec fn children(&self) -> Map<Seq<char>, BoxedActorRef> {
        self@.children
    }

    /// Whether a supervision table has been set up.
    pub open spec fn has_supervised(&self) -> bool {
        self@.has_supervised
    }

    /// Those waiting for the actor to stop, in the order they subscribed.
    pub open spec fn subscribers(&self) -> Seq<Sender<()>> {
        self@.subscribers
    }

    /// The labels last set, if any were.
    pub open spec fn tags_spec(&self) -> Option<ActorTags> {
        self@.tags
    }

    /// A context for the actor `boxed_ref`, without parent, children, tags
    /// or subscribers. Its identifier is the next one of `system`, or 0
    /// where there is no system.
    pub fn new(system: Option<ActorSystem>, status: ActorStatus, boxed_ref: BoxedActorRef) -> (ctx:
        ActorContext)
        ensures
            ctx.wf(),
            ctx.status() == status,
            ctx.self_ref() == boxed_ref,
            ctx.parent_ref().is_none(),
            ctx.children() == Map::<Seq<char>, BoxedActorRef>::empty(),
            !ctx.has_supervised(),
            ctx.subscribers() == Seq::<Sender<()>>::empty(),
            ctx.tags_spec().is_none(),
            match system {
                Some(s) => ctx.context_id() == s.next_context && ctx.system_spec() == Some(
                    ActorSystem {
                        next_context: if s.next_context == u64::MAX {
                            0
                        } else {
                            (s.next_context + 1) as u64
                        },
                        ..s
                    },
                ),
                None => ctx.context_id() == 0 && ctx.system_spec().is_none(),
            },
    {
        let mut system = system;
        let context_id: u64 = match &mut system {
            Some(s) => s.next_context_id(),
            None => 0,
        };
        ActorContext {
            boxed_ref,
            status,
            system,
            context_id,
            supervised: None,
            boxed_parent_ref: None,
            on_actor_stopped: Vec::new(),
            tags: None,
        }
    }

    pub fn id(&self) -> (id: &ActorId)
        ensures
            *id == self.self_ref().actor_id,
    {
        self.boxed_ref.actor_id()
    }

    pub fn ctx_id(&self) -> (id: u64)
        ensures
            id == self.context_id(),
    {
        self.context_id
    }

    pub fn set_tags(&mut self, tags: ActorTags)
        ensures
            final(self)@ == (ContextView { tags: Some(tags), ..old(self)@ }),
            old(self).wf() ==> final(self).wf(),
    {
        self.tags = Some(tags);
    }

    /// The labels last set; `Untagged` where none were.
    pub fn tags(&self) -> (tags: ActorTags)
        ensures
            match self.tags_spec() {
                Some(t) => tags@ == t@ && tags.same_kind(&t),
                None => tags is Untagged,
            },
    {
        match &self.tags {
            Some(t) => t.duplicate(),
            None => ActorTags::Untagged,
        }
    }

    /// Asks the actor to stop: the status moves on to `Stopping`, unless the
    /// actor has stopped already, and `on_stopped_handler`, if given, joins
    /// the subscribers.
    pub fn stop(&mut self, on_stopped_handler: Option<Sender<()>>)
        ensures
            final(self)@ == (ContextView {
                status: old(self)@.status.advanced_to(ActorStatus::Stopping),
                subscribers: match on_stopped_handler {
                    Some(sender) => old(self)@.subscribers.push(sender),
                    None => old(self)@.subscribers,
                },
                ..old(self)@
            }),
            old(self).wf() ==> final(self).wf(),
    {
        if let Some(sender) = on_stopped_handler {
            self.add_on_stopped_handler(sender);
        }
        self.set_status(ActorStatus::Stopping);
    }

    /// The system this context runs in.
    pub fn system(&self) -> (system: &ActorSystem)
        requires
            self.system_spec().is_some(),
        ensures
            Some(*system) == self.system_spec(),
    {
        match &self.system {
            Some(system) => system,
            None => unreached(),
        }
    }

    /// Whether the context runs in a system.
    pub fn has_system(&self) -> (has: bool)
        ensures
            has == self.system_spec().is_some(),
    {
        self.system.is_some()
    }

    pub fn set_system(&mut self, system: ActorSystem)
        ensures
            final(self)@ == (ContextView { system: Some(system), ..old(self)@ }),
            old(self).wf() ==> final(self).wf(),
    {
        self.system = Some(system);
    }

    /// Moves the status on to `state`. The status only advances: a `state`
    /// that lies before the present status leaves it as it is.
    pub fn set_status(&mut self, state: ActorStatus)
        ensures
            final(self)@ == (ContextView {
                status: old(self)@.status.advanced_to(state),
                ..old(self)@
            }),
            old(self).wf() ==> final(self).wf(),
    {
        if self.status.may_advance_to(state) {
            self.status = state
        }
    }

    pub fn get_status(&self) -> (status: &ActorStatus)
        ensures
            *status == self.status(),
    {
        &self.status
    }

    pub fn is_starting(&self) -> (starting: bool)
        ensures
            starting == (self.status() == ActorStatus::Starting),
    {
        self.status == ActorStatus::Starting
    }

    /// The actor's own handle, as an actor of type `actor_type`;
    /// `InvalidRef` where the actor is of another type.
    pub fn actor_ref(&self, actor_type: &String) -> (r: Result<LocalActorRef, ActorRefErr>)
        ensures
            r == self.self_ref().downcast_spec(actor_type@),
    {
        self.boxed_ref.downcast(actor_type)
    }

    pub fn boxed_actor_ref(&self) -> (r: BoxedActorRef)
        ensures
            r == self.self_ref(),
    {
        self.boxed_ref.duplicate()
    }

    /// The child `id` as an actor of type `actor_type`.
    pub fn child_ref(&self, id: &ActorId, actor_type: &String) -> (child: Option<LocalActorRef>)
        requires
            self.wf(),
        ensures
            child == (if self.children().contains_key(id@) && self.children()[id@].actor_type@
                == actor_type@ {
                Some(
                    LocalActorRef {
                        id: self.children()[id@].actor_id,
                        actor_type: self.children()[id@].actor_type,
                    },
                )
            } else {
                None::<LocalActorRef>
            }),
    {
        match &self.supervised {
            Some(supervised) => supervised.child(id, actor_type),
            None => None,
        }
    }

    /// The child `id`, with its type erased.
    pub fn boxed_child_ref(&self, id: &ActorId) -> (child: Option<BoxedActorRef>)
        requires
            self.wf(),
        ensures
            child == (if self.children().contains_key(id@) {
                Some(self.children()[id@])
            } else {
                None::<BoxedActorRef>
            }),
    {
        if let Some(supervised) = self.supervised.as_ref() {
            supervised.child_boxed(id)
        } else {
            None
        }
    }

    /// Records `actor_ref` as a supervised child, setting up the table on
    /// first use.
    pub fn attach_child_ref(&mut self, actor_ref: BoxedActorRef)
        requires
            old(self).wf(),
        ensures
            final(self).wf(),
            final(self)@ == (ContextView {
                has_supervised: true,
                children: old(self)@.children.insert(actor_ref.actor_id@, actor_ref),
                ..old(self)@
            }),
    {
        let mut supervised = match self.supervised.take() {
            Some(s) => s,
            None => Supervised::new(self.boxed_ref.actor_id().clone()),
        };
        supervised.attach_child_ref(actor_ref);
        self.supervised = Some(supervised);
    }

    /// The supervision table, to be changed in place, if one has been set
    /// up. The children of the context are those of the table once the
    /// caller is done with it.
    pub fn supervised_mut(&mut self) -> (table: Option<&mut Supervised>)
        ensures
            table.is_some() == old(self).has_supervised(),
            match table {
                Some(s) => {
                    &&& s@.children == old(self).children()
                    &&& (old(self).wf() ==> s.wf())
                    &&& final(self)@ == (ContextView { children: final(s)@.children, ..old(self)@ })
                    &&& (final(s).wf() && final(s).parent_id() == s.parent_id() && old(self).wf()
                        ==> final(self).wf())
                },
                None => final(self)@ == old(self)@ && (old(self).wf() ==> final(self).wf()),
            },
    {
        match &mut self.supervised {
            Some(s) => Some(s),
            None => None,
        }
    }

    /// The supervision table, if one has been set up.
    pub fn supervised(&self) -> (table: Option<&Supervised>)
        ensures
            table.is_some() == self.has_supervised(),
            match table {
                Some(s) => s@.children == self.children() && (self.wf() ==> s.wf()),
                None => true,
            },
    {
        self.supervised.as_ref()
    }

    /// Makes `id` a supervised child of type `actor_type` and returns its
    /// handle together with the parent handle the child is to be started
    /// with, which is this actor's own.
    pub fn spawn(&mut self, id: ActorId, actor_type: String) -> (spawned: (
        LocalActorRef,
        BoxedActorRef,
    ))
        requires
            old(self).wf(),
        ensures
            final(self).wf(),
            spawned.0.id == id,
            spawned.0.actor_type == actor_type,
            spawned.1 == old(self).self_ref(),
            final(self)@ == (ContextView {
                has_supervised: true,
                children: old(self)@.children.insert(
                    id@,
                    BoxedActorRef { actor_id: id, actor_type },
                ),
                ..old(self)@
            }),
    {
        let mut supervised = match self.supervised.take() {
            Some(s) => s,
            None => Supervised::new(self.boxed_ref.actor_id().clone()),
        };
        let child = supervised.spawn(id, actor_type);
        self.supervised = Some(supervised);
        (child, self.boxed_ref.duplicate())
    }

    /// Forgets the child `id`, whose termination notice has arrived.
    pub fn child_terminated(&mut self, id: &ActorId) -> (known: bool)
        requires
            old(self).wf(),
        ensures
            final(self).wf(),
            known == old(self).children().contains_key(id@),
            final(self)@ == (ContextView {
                children: old(self)@.children.remove(id@),
                ..old(self)@
            }),
    {
        match self.supervised.take() {
            Some(mut supervised) => {
                let known = supervised.on_child_terminated(id);
                self.supervised = Some(supervised);
                known
            },
            None => {
                assert(self@.children =~= old(self)@.children.remove(id@));
                false
            },
        }
    }

    /// Whether the actor supervises no child.
    pub fn has_no_children(&self) -> (none: bool)
        requires
            self.wf(),
        ensures
            none == (self.children() == Map::<Seq<char>, BoxedActorRef>::empty()),
    {
        match &self.supervised {
            Some(s) => s.is_empty(),
            None => true,
        }
    }

    /// Every supervised child, each once, in no particular order.
    pub fn children_to_stop(&self) -> (refs: Vec<BoxedActorRef>)
        requires
            self.wf(),
        ensures
            stops_exactly(refs@, self.children()),
    {
        match &self.supervised {
            Some(s) => s.child_refs(),
            None => Vec::new(),
        }
    }

    /// What the release of this context would record and whom it would tell.
    pub fn dropped(&self) -> (dropped: ContextDropped)
        ensures
            dropped.cause == stop_cause(self.status(), system_terminated(self.system_spec())),
            dropped.notice == (match self.parent_ref() {
                Some(parent) => Some(
                    ChildTerminated { parent, child: self.self_ref().actor_id },
                ),
                None => None::<ChildTerminated>,
            }),
    {
        on_context_dropped(&self.boxed_ref, &self.boxed_parent_ref, &self.status, &self.system)
    }

    /// The number of supervised children. There are finitely many.
    pub fn supervised_count(&self) -> (n: usize)
        requires
            self.wf(),
        ensures
            self.children().dom().finite(),
            n == self.children().dom().len(),
    {
        match &self.supervised {
            Some(s) => s.count(),
            None => 0,
        }
    }

    /// A context supervises finitely many children.
    pub proof fn lemma_children_finite(&self)
        requires
            self.wf(),
        ensures
            self.children().dom().finite(),
    {
        match self.supervised {
            Some(s) => s.lemma_children_finite(),
            None => {},
        }
    }

    /// The same context with `boxed_parent_ref` as its parent.
    pub fn with_parent(self, boxed_parent_ref: Option<BoxedActorRef>) -> (ctx: Self)
        ensures
            ctx@ == (ContextView { parent_ref: boxed_parent_ref, ..self@ }),
            self.wf() ==> ctx.wf(),
    {
        let mut ctx = self;
        ctx.boxed_parent_ref = boxed_parent_ref;
        ctx
    }

    /// The parent as an actor of type `actor_type`; nothing where there is no
    /// parent or its type is another.
    pub fn parent(&self, actor_type: &String) -> (parent: Option<LocalActorRef>)
        ensures
            parent == (match self.parent_ref() {
                Some(p) => if p.actor_type@ == actor_type@ {
                    Some(LocalActorRef { id: p.actor_id, actor_type: p.actor_type })
                } else {
                    None::<LocalActorRef>
                },
                None => None::<LocalActorRef>,
            }),
    {
        if let Some(parent) = &self.boxed_parent_ref {
            parent.as_actor(actor_type)
        } else {
            None
        }
    }

    pub fn boxed_parent(&self) -> (parent: Option<BoxedActorRef>)
        ensures
            parent == self.parent_ref(),
    {
        match &self.boxed_parent_ref {
            Some(p) => Some(p.duplicate()),
            None => None,
        }
    }

    /// Adds `event_handler` behind those already waiting for the stop.
    pub fn add_on_stopped_handler(&mut self, event_handler: Sender<()>)
        ensures
            final(self)@ == (ContextView {
                subscribers: old(self)@.subscribers.push(event_handler),
                ..old(self)@
            }),
            old(self).wf() ==> final(self).wf(),
    {
        self.on_actor_stopped.push(event_handler);
    }

    /// Hands out those waiting for the stop, in the order they subscribed,
    /// and leaves none behind. Nothing is returned exactly when nobody
    /// waits.
    pub fn take_on_stopped_handlers(&mut self) -> (handlers: Option<Vec<Sender<()>>>)
        ensures
            final(self)@ == (ContextView { subscribers: Seq::empty(), ..old(self)@ }),
            handlers is None <==> old(self).subscribers().len() == 0,
            match handlers {
                Some(h) => h@ == old(self).subscribers(),
                None => true,
            },
            old(self).wf() ==> final(self).wf(),
    {
        if self.on_actor_stopped.len() == 0 {
            assert(self.on_actor_stopped@ =~= Seq::empty());
            None
        } else {
            let mut handlers: Vec<Sender<()>> = Vec::new();
            std::mem::swap(&mut self.on_actor_stopped, &mut handlers);
            Some(handlers)
        }
    }

    /// Releases the context. The children are handed out to be stopped
    /// first; then the release is classified and the parent, if any, is
    /// owed a notice.
    pub fn release(self) -> (release: ContextRelease)
        requires
            self.wf(),
        ensures
            stops_exactly(release.stop_children@, self.children()),
            release.dropped.cause == stop_cause(
                self.status(),
                system_terminated(self.system_spec()),
            ),
            release.dropped.notice == (match self.parent_ref() {
                Some(parent) => Some(
                    ChildTerminated { parent, child: self.self_ref().actor_id },
                ),
                None => None::<ChildTerminated>,
            }),
    {
        let mut ctx = self;
        let stop_children = match ctx.supervised.take() {
            Some(mut supervised) => supervised.stop_all(),
            None => Vec::new(),
        };
        let dropped = on_context_dropped(
            &ctx.boxed_ref,
            &ctx.boxed_parent_ref,
            &ctx.status,
            &ctx.system,
        );
        ContextRelease { stop_children, dropped }
    }
}

/// What to do with an actor fed from a stream when the stream ends.
pub struct StreamAttachmentOptions {
    stop_on_stream_end: bool,
}

impl StreamAttachmentOptions {
    pub closed spec fn stops_on_end(&self) -> bool {
        self.stop_on_stream_end
    }

    pub fn new(stop_on_stream_end: bool) -> (options: Self)
        ensures
            options.stops_on_end() == stop_on_stream_end,
    {
        StreamAttachmentOptions { stop_on_stream_end }
    }

    pub fn stop_on_stream_end(&self) -> (stop: bool)
        ensures
            stop == self.stops_on_end(),
    {
        self.stop_on_stream_end
    }
}

/// What to do about one thing that came out of an attached stream.
#[derive(Debug, PartialEq, Eq)]
pub enum StreamStep<M> {
    /// Send the message to the actor and go on reading.
    Notify(M),
    /// Go on reading.
    Skip,
    /// Stop reading, and ask the actor to stop if `stop_actor` is set.
    End { stop_actor: bool },
}

/// What the stream gave: an item, as the message made from it or nothing
/// where none was made; an error; or its end.
#[derive(Debug, PartialEq, Eq)]
pub enum StreamItem<M> {
    Item(Option<M>),
    Failed,
    Finished,
}

/// What an attached stream does about `item`: a message is sent on, an
/// item that gives no message is passed over, and an error or the end of
/// the stream ends the reading, stopping the actor where the options say so.
pub fn attach_stream<M>(options: &StreamAttachmentOptions, item: StreamItem<M>) -> (step:
    StreamStep<M>)
    ensures
        step == (match item {
            StreamItem::Item(Some(message)) => StreamStep::Notify(message),
            StreamItem::Item(None) => StreamStep::Skip,
            StreamItem::Failed => StreamStep::End { stop_actor: options.stops_on_end() },
            StreamItem::Finished => StreamStep::End { stop_actor: options.stops_on_end() },
        }),
{
    match item {
        StreamItem::Item(Some(message)) => StreamStep::Notify(message),
        StreamItem::Item(None) => StreamStep::Skip,
        StreamItem::Failed => StreamStep::End { stop_actor: options.stop_on_stream_end },
        StreamItem::Finished => StreamStep::End { stop_actor: options.stop_on_stream_end },
    }
}

impl Default for StreamAttachmentOptions {
    /// By default the actor is stopped when its stream ends.
    fn default() -> (options: Self)
        ensures
            options.stops_on_end(),
    {
        Self { stop_on_stream_end: true }
    }
}


} // verus!

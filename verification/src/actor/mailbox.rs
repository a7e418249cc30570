//! The mailbox of one actor: an unbounded queue that hands messages out in
//! the order in which they were accepted.

use vstd::prelude::*;
use std::collections::VecDeque;
use crate::actor::refs::ActorRefErr;

verus! {

/// A mailbox as plain values: the messages accepted and not yet handed out,
/// oldest first, and whether the mailbox has been closed.
pub struct MailboxView<M> {
    pub pending: Seq<M>,
    pub closed: bool,
}

/// One operation on a mailbox.
pub enum MailboxOp<M> {
    /// A sender offers a message.
    Notify(M),
    /// The consumer takes the next message.
    Next,
    /// The consumer closes the mailbox.
    Close,
}

impl<M> MailboxView<M> {
    /// The mailbox after `op`.
    pub open spec fn after(self, op: MailboxOp<M>) -> MailboxView<M> {
        match op {
            MailboxOp::Notify(m) => if self.closed {
                self
            } else {
                MailboxView { pending: self.pending.push(m), closed: false }
            },
            MailboxOp::Next => if self.pending.len() > 0 {
                MailboxView { pending: self.pending.drop_first(), closed: self.closed }
            } else {
                self
            },
            MailboxOp::Close => MailboxView { pending: Seq::empty(), closed: true },
        }
    }

    /// The messages that `op` adds to the mailbox: the one offered, unless
    /// the mailbox is closed.
    pub open spec fn taken_in(self, op: MailboxOp<M>) -> Seq<M> {
        match op {
            MailboxOp::Notify(m) => if self.closed {
                Seq::empty()
            } else {
                seq![m]
            },
            _ => Seq::empty(),
        }
    }

    /// The messages that leave the mailbox with `op`: the oldest one for
    /// `Next`, all of them for `Close`.
    pub open spec fn given_out(self, op: MailboxOp<M>) -> Seq<M> {
        match op {
            MailboxOp::Notify(_) => Seq::empty(),
            MailboxOp::Next => if self.pending.len() > 0 {
                seq![self.pending[0]]
            } else {
                Seq::empty()
            },
            MailboxOp::Close => self.pending,
        }
    }

    /// The mailbox after the operations `ops`, applied in order.
    pub open spec fn after_all(self, ops: Seq<MailboxOp<M>>) -> MailboxView<M>
        decreases ops.len(),
    {
        if ops.len() == 0 {
            self
        } else {
            self.after_all(ops.drop_last()).after(ops.last())
        }
    }

    /// The messages accepted over `ops`, in the order of their acceptance.
    pub open spec fn accepted(self, ops: Seq<MailboxOp<M>>) -> Seq<M>
        decreases ops.len(),
    {
        if ops.len() == 0 {
            Seq::empty()
        } else {
            self.accepted(ops.drop_last()) + self.after_all(ops.drop_last()).taken_in(ops.last())
        }
    }

    /// The messages that left the mailbox over `ops`, in the order in which
    /// they left.
    pub open spec fn delivered(self, ops: Seq<MailboxOp<M>>) -> Seq<M>
        decreases ops.len(),
    {
        if ops.len() == 0 {
            Seq::empty()
        } else {
            self.delivered(ops.drop_last()) + self.after_all(ops.drop_last()).given_out(ops.last())
        }
    }
}

/// First in, first out, and nothing lost: over any run of operations, the
/// messages that left the mailbox followed by those still waiting are the
/// messages that were waiting at first followed by those accepted since, in
/// the order of their acceptance.
pub proof fn lemma_fifo<M>(start: MailboxView<M>, ops: Seq<MailboxOp<M>>)
    ensures
        start.delivered(ops) + start.after_all(ops).pending == start.pending + start.accepted(ops),
    decreases ops.len(),
{
    if ops.len() == 0 {
        assert(start.delivered(ops) + start.after_all(ops).pending =~= start.pending
            + start.accepted(ops));
    } else {
        let before = ops.drop_last();
        lemma_fifo(start, before);
        let mid = start.after_all(before);
        let op = ops.last();
        let d = start.delivered(before);
        let a = start.accepted(before);
        assert(d + mid.pending == start.pending + a);
        assert((d + mid.given_out(op)) + mid.after(op).pending =~= (d + mid.pending) + mid.taken_in(
            op,
        ));
        assert((start.pending + a) + mid.taken_in(op) =~= start.pending + (a + mid.taken_in(op)));
    }
}

/// Two messages offered one after the other to an open mailbox wait in that
/// order, behind everything that was waiting before.
pub proof fn lemma_notify_order<M>(start: MailboxView<M>, m1: M, m2: M)
    requires
        !start.closed,
    ensures
        start.after(MailboxOp::Notify(m1)).after(MailboxOp::Notify(m2)).pending == start.pending
            + seq![m1, m2],
{
    assert(start.pending.push(m1).push(m2) =~= start.pending + seq![m1, m2]);
}

/// The mailbox of one actor.
pub struct Mailbox<M> {
    queue: VecDeque<M>,
    closed: bool,
}

impl<M> Mailbox<M> {
    pub closed spec fn view(&self) -> MailboxView<M> {
        MailboxView { pending: self.queue@, closed: self.closed }
    }

    /// An open mailbox with nothing in it.
    pub fn new() -> (mailbox: Self)
        ensures
            mailbox@ == (MailboxView { pending: Seq::<M>::empty(), closed: false }),
    {
        Mailbox { queue: VecDeque::new(), closed: false }
    }

    /// Offers `message`. An open mailbox takes it behind all that wait; a
    /// closed one refuses it with `ActorUnavailable`.
    pub fn notify(&mut self, message: M) -> (r: Result<(), ActorRefErr>)
        ensures
            final(self)@ == old(self)@.after(MailboxOp::Notify(message)),
            r == (if old(self)@.closed {
                Err::<(), ActorRefErr>(ActorRefErr::ActorUnavailable)
            } else {
                Ok::<(), ActorRefErr>(())
            }),
    {
        if self.closed {
            Err(ActorRefErr::ActorUnavailable)
        } else {
            self.queue.push_back(message);
            Ok(())
        }
    }

    /// Takes the message that has waited longest, if any waits.
    pub fn next(&mut self) -> (message: Option<M>)
        ensures
            final(self)@ == old(self)@.after(MailboxOp::Next),
            message == (if old(self)@.pending.len() > 0 {
                Some(old(self)@.pending[0])
            } else {
                None::<M>
            }),
    {
        let message = self.queue.pop_front();
        proof {
            if old(self)@.pending.len() > 0 {
                assert(self.queue@ =~= old(self)@.pending.drop_first());
            }
        }
        message
    }

    /// Closes the mailbox and hands out, oldest first, what was never
    /// delivered. Nothing is accepted afterwards.
    pub fn close(&mut self) -> (undelivered: Vec<M>)
        ensures
            final(self)@ == old(self)@.after(MailboxOp::Close),
            undelivered@ == old(self)@.pending,
    {
        self.closed = true;
        let mut undelivered: Vec<M> = Vec::new();
        loop
            invariant
                self.closed,
                undelivered@ + self.queue@ == old(self)@.pending,
            ensures
                self.queue@.len() == 0,
            decreases self.queue@.len(),
        {
            let ghost rest = self.queue@;
            let ghost done = undelivered@;
            match self.queue.pop_front() {
                Some(message) => {
                    undelivered.push(message);
                    assert(undelivered@ + self.queue@ =~= done + rest);
                },
                None => {
                    break ;
                },
            }
        }
        proof {
            assert(undelivered@ =~= undelivered@ + self.queue@);
            assert(self.queue@ =~= Seq::empty());
        }
        undelivered
    }

    pub fn is_closed(&self) -> (closed: bool)
        ensures
            closed == self@.closed,
    {
        self.closed
    }

    /// The number of messages waiting.
    pub fn len(&self) -> (n: usize)
        ensures
            n == self@.pending.len(),
    {
        self.queue.len()
    }
}

/// How the wait for an answer ended.
#[derive(Debug, PartialEq, Eq)]
pub enum ReplyOutcome<R> {
    /// The handler answered.
    Answered(R),
    /// The mailbox was closed before the message reached a handler.
    Undelivered,
    /// The handler let go of the reply sink without answering.
    SinkDropped,
    /// The caller gave up before an answer came.
    CallerCancelled,
}

/// What `send` returns: `ActorUnavailable` where the mailbox refused the
/// message or was closed before the message reached a handler, else the
/// answer, or the error that stands for the way the wait ended.
pub open spec fn send_result_spec<R>(
    enqueued: Result<(), ActorRefErr>,
    reply: ReplyOutcome<R>,
) -> Result<R, ActorRefErr> {
    match enqueued {
        Err(_) => Err(ActorRefErr::ActorUnavailable),
        Ok(_) => match reply {
            ReplyOutcome::Answered(r) => Ok(r),
            ReplyOutcome::Undelivered => Err(ActorRefErr::ActorUnavailable),
            ReplyOutcome::SinkDropped => Err(ActorRefErr::ResultSendFailed),
            ReplyOutcome::CallerCancelled => Err(ActorRefErr::ResultChannelClosed),
        },
    }
}

/// The result of a `send`, from what `notify` returned and how the wait for
/// the answer ended.
pub fn send_result<R>(enqueued: Result<(), ActorRefErr>, reply: ReplyOutcome<R>) -> (r: Result<
    R,
    ActorRefErr,
>)
    ensures
        r == send_result_spec(enqueued, reply),
{
    match enqueued {
        Err(_) => Err(ActorRefErr::ActorUnavailable),
        Ok(_) => match reply {
            ReplyOutcome::Answered(r) => Ok(r),
            ReplyOutcome::Undelivered => Err(ActorRefErr::ActorUnavailable),
            ReplyOutcome::SinkDropped => Err(ActorRefErr::ResultSendFailed),
            ReplyOutcome::CallerCancelled => Err(ActorRefErr::ResultChannelClosed),
        },
    }
}

} // verus!

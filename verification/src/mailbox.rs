//! The mailbox: a multi-producer, single-consumer ordered queue of
//! messages for one actor, paired with two shared counters — how many
//! sender handles are alive, and how many messages are queued but not yet
//! dispatched.

use vstd::prelude::*;

use crate::actor::SendError;

verus! {

/// One actor's message intake. `queue` holds the pending messages oldest
/// first; `queue_depth` mirrors its length, as the counter the shutdown
/// protocol reads; `handle_count` counts the live sender handles plus one
/// internal bookkeeping reference held by the router; `closed` records
/// that the consuming end has been shut, after which every send observes
/// `Disconnected`.
pub struct Mailbox<M> {
    queue: Vec<M>,
    queue_depth: usize,
    handle_count: usize,
    closed: bool,
}

impl<M> Mailbox<M> {
    /// The queued messages, oldest first.
    pub closed spec fn contents(&self) -> Seq<M> {
        self.queue@
    }

    /// The live handle count, the router's own reference included.
    pub closed spec fn handles(&self) -> nat {
        self.handle_count as nat
    }

    /// Whether the consuming end has been shut.
    pub closed spec fn is_closed(&self) -> bool {
        self.closed
    }

    /// The depth counter always equals the number of queued messages.
    pub closed spec fn wf(&self) -> bool {
        self.queue_depth == self.queue@.len()
    }

    /// A fresh mailbox: empty, open, with two handles — one for the router
    /// that will consume it and one for the first sender handle given out.
    pub fn new() -> (mailbox: Mailbox<M>)
        ensures
            mailbox.wf(),
            mailbox.contents() == Seq::<M>::empty(),
            mailbox.handles() == 2,
            !mailbox.is_closed(),
    {
        Mailbox { queue: Vec::new(), queue_depth: 0, handle_count: 2, closed: false }
    }

    /// Enqueues a message at the tail, or reports `Disconnected` once the
    /// consuming end has closed.
    pub fn send(&mut self, message: M) -> (outcome: Result<(), SendError>)
        requires
            old(self).wf(),
        ensures
            final(self).wf(),
            final(self).handles() == old(self).handles(),
            final(self).is_closed() == old(self).is_closed(),
            old(self).is_closed() ==> {
                &&& outcome == Result::<(), SendError>::Err(SendError::Disconnected)
                &&& final(self).contents() == old(self).contents()
            },
            !old(self).is_closed() ==> {
                &&& outcome is Ok
                &&& final(self).contents() == old(self).contents().push(message)
            },
    {
        if self.closed {
            Err(SendError::Disconnected)
        } else {
            self.queue.push(message);
            self.queue_depth = self.queue.len();
            Ok(())
        }
    }

    /// Dequeues the head message, oldest first; `None` when nothing is
    /// queued. Consumer side: only the router calls it.
    pub fn try_recv(&mut self) -> (received: Option<M>)
        requires
            old(self).wf(),
        ensures
            final(self).wf(),
            final(self).handles() == old(self).handles(),
            final(self).is_closed() == old(self).is_closed(),
            old(self).contents().len() == 0 ==> {
                &&& received is None
                &&& final(self).contents() == old(self).contents()
            },
            old(self).contents().len() > 0 ==> {
                &&& received == Some(old(self).contents()[0])
                &&& final(self).contents() == old(self).contents().drop_first()
            },
    {
        if self.queue.len() == 0 {
            None
        } else {
            let head = self.queue.remove(0);
            self.queue_depth = self.queue.len();
            Some(head)
        }
    }

    /// Shuts the consuming end: every later send observes `Disconnected`.
    pub fn close(&mut self)
        requires
            old(self).wf(),
        ensures
            final(self).wf(),
            final(self).contents() == old(self).contents(),
            final(self).handles() == old(self).handles(),
            final(self).is_closed(),
    {
        self.closed = true;
    }

    /// Discards every queued message; used when an actor is torn down
    /// abnormally and its still-queued messages are lost by design.
    pub fn discard_queue(&mut self)
        requires
            old(self).wf(),
        ensures
            final(self).wf(),
            final(self).contents() == Seq::<M>::empty(),
            final(self).handles() == old(self).handles(),
            final(self).is_closed() == old(self).is_closed(),
    {
        self.queue.clear();
        self.queue_depth = 0;
    }

    /// Records one more live sender handle (a handle was cloned).
    pub fn add_handle(&mut self)
        requires
            old(self).wf(),
            old(self).handles() < usize::MAX,
        ensures
            final(self).wf(),
            final(self).contents() == old(self).contents(),
            final(self).handles() == old(self).handles() + 1,
            final(self).is_closed() == old(self).is_closed(),
    {
        self.handle_count = self.handle_count + 1;
    }

    /// Records that a sender handle was dropped.
    pub fn release_handle(&mut self)
        requires
            old(self).wf(),
            old(self).handles() >= 1,
        ensures
            final(self).wf(),
            final(self).contents() == old(self).contents(),
            final(self).handles() == old(self).handles() - 1,
            final(self).is_closed() == old(self).is_closed(),
    {
        self.handle_count = self.handle_count - 1;
    }

    /// The queue-depth counter: how many messages are queued right now.
    pub fn queue_depth(&self) -> (depth: usize)
        requires
            self.wf(),
        ensures
            depth == self.contents().len(),
    {
        self.queue_depth
    }

    /// The handle-count counter.
    pub fn handle_count(&self) -> (count: usize)
        ensures
            count == self.handles(),
    {
        self.handle_count
    }
}

} // verus!

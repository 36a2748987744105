//! A spawned actor: the mailbox and the router that drives it, owned
//! together. Sends enqueue into the mailbox; cloning and dropping sender
//! handles move the handle count; pumping runs the router's driving loop.
//!
//! The cell carries the ghost record of every message accepted for
//! sending, which is what the delivery-order and drain-before-shutdown
//! statements are proved against.

use vstd::prelude::*;

use crate::actor::Actor;
use crate::actor::DispatchError;
use crate::actor::SendError;
use crate::actor::dispatch_trace;
use crate::mailbox::Mailbox;
use crate::router::Router;
use crate::router::RouterPhase;
use crate::router::StepOutcome;
use crate::router::route_wrapper;

verus! {

/// One actor's runtime seat: its router, its mailbox, and the ghost log
/// of every message a sender handle has successfully enqueued.
pub struct ActorCell<A, M> where A: Actor<M> {
    router: Router<A, M>,
    mailbox: Mailbox<M>,
    sent_log: Ghost<Seq<M>>,
}

impl<A, M> ActorCell<A, M> where A: Actor<M> {
    /// The router, as a specification value.
    pub closed spec fn router_view(&self) -> Router<A, M> {
        self.router
    }

    /// The mailbox, as a specification value.
    pub closed spec fn mailbox_view(&self) -> Mailbox<M> {
        self.mailbox
    }

    /// Every message accepted for sending into this cell, oldest first.
    pub closed spec fn sent(&self) -> Seq<M> {
        self.sent_log@
    }

    /// The messages the actor has been given, oldest first.
    pub open spec fn delivered(&self) -> Seq<M> {
        self.router_view().processed()
    }

    /// The messages lost to an abnormal teardown.
    pub open spec fn lost(&self) -> Seq<M> {
        self.router_view().lost()
    }

    /// What the actor had observed before it was spawned here.
    pub open spec fn base(&self) -> Seq<M> {
        self.router_view().base()
    }

    /// The messages currently queued, oldest first.
    pub open spec fn queued(&self) -> Seq<M> {
        self.mailbox_view().contents()
    }

    /// Live handles: the router's own reference plus one per sender.
    pub open spec fn handles(&self) -> nat {
        self.mailbox_view().handles()
    }

    /// The router's current phase.
    pub open spec fn state(&self) -> RouterPhase {
        self.router_view().state()
    }

    /// Whether the actor has been closed (terminal).
    pub open spec fn is_closed(&self) -> bool {
        self.state() is Closed
    }

    /// Whether a dispatch failure tore this cell down.
    pub open spec fn is_failed(&self) -> bool {
        self.router_view().is_failed()
    }

    /// How many times the actor's teardown hook has run.
    pub open spec fn close_calls(&self) -> nat {
        self.router_view().close_calls()
    }

    /// The actor instance, while one is held.
    pub open spec fn actor(&self) -> Option<A> {
        self.router_view().actor()
    }

    /// The cell's invariant: router and mailbox agree, and every message
    /// ever accepted is accounted for — already delivered, lost to an
    /// abnormal teardown, or still queued, in that order.
    pub open spec fn inv(&self) -> bool {
        &&& self.router_view().inv()
        &&& self.router_view().sync(self.mailbox_view())
        &&& self.sent() == self.delivered() + self.lost() + self.queued()
    }

    /// Enqueues a message, or reports `Disconnected` once the actor is
    /// gone (closed or torn down). Stands for `ActorRef::send`.
    pub fn send(&mut self, message: M) -> (outcome: Result<(), SendError>)
        requires
            old(self).inv(),
        ensures
            final(self).inv(),
            final(self).handles() == old(self).handles(),
            final(self).delivered() == old(self).delivered(),
            final(self).lost() == old(self).lost(),
            final(self).base() == old(self).base(),
            final(self).actor() == old(self).actor(),
            final(self).state() == old(self).state(),
            final(self).is_failed() == old(self).is_failed(),
            final(self).close_calls() == old(self).close_calls(),
            (old(self).is_closed() || old(self).is_failed()) ==> {
                &&& outcome == Result::<(), SendError>::Err(SendError::Disconnected)
                &&& final(self).sent() == old(self).sent()
                &&& final(self).queued() == old(self).queued()
            },
            !(old(self).is_closed() || old(self).is_failed()) ==> {
                &&& outcome is Ok
                &&& final(self).sent() == old(self).sent().push(message)
                &&& final(self).queued() == old(self).queued().push(message)
            },
    {
        let ghost message_snapshot: M = message;
        let outcome = self.mailbox.send(message);
        if outcome.is_ok() {
            self.sent_log = Ghost(self.sent_log@.push(message_snapshot));
            proof {
                assert(self.sent_log@ =~= self.delivered() + self.lost() + self.queued());
            }
        }
        outcome
    }

    /// Records a cloned sender handle. Cloning needs a surviving external
    /// handle to clone from, so at least two handles are live.
    pub fn clone_ref(&mut self)
        requires
            old(self).inv(),
            old(self).handles() >= 2,
            old(self).handles() < usize::MAX,
        ensures
            final(self).inv(),
            final(self).handles() == old(self).handles() + 1,
            final(self).sent() == old(self).sent(),
            final(self).queued() == old(self).queued(),
            final(self).delivered() == old(self).delivered(),
            final(self).lost() == old(self).lost(),
            final(self).base() == old(self).base(),
            final(self).actor() == old(self).actor(),
            final(self).state() == old(self).state(),
            final(self).is_failed() == old(self).is_failed(),
            final(self).close_calls() == old(self).close_calls(),
    {
        self.mailbox.add_handle();
    }

    /// Records a dropped sender handle.
    pub fn drop_ref(&mut self)
        requires
            old(self).inv(),
            old(self).handles() >= 2,
        ensures
            final(self).inv(),
            final(self).handles() == old(self).handles() - 1,
            final(self).sent() == old(self).sent(),
            final(self).queued() == old(self).queued(),
            final(self).delivered() == old(self).delivered(),
            final(self).lost() == old(self).lost(),
            final(self).base() == old(self).base(),
            final(self).actor() == old(self).actor(),
            final(self).state() == old(self).state(),
            final(self).is_failed() == old(self).is_failed(),
            final(self).close_calls() == old(self).close_calls(),
    {
        self.mailbox.release_handle();
    }

    /// Runs the router's driving loop over everything currently queued.
    ///
    /// Drain-before-shutdown: on a normal run every message queued at
    /// entry is delivered, in order, and the actor is closed iff no
    /// external handle survived — never while work remained queued. Once
    /// closed or failed the cell is inert and pumping changes nothing.
    pub fn pump(&mut self) -> (outcome: Result<(), DispatchError>)
        requires
            old(self).inv(),
        ensures
            final(self).inv(),
            final(self).handles() == old(self).handles(),
            final(self).sent() == old(self).sent(),
            final(self).base() == old(self).base(),
            (old(self).is_closed() || old(self).is_failed()) ==> {
                &&& outcome is Ok
                &&& *final(self) == *old(self)
            },
            !(old(self).is_closed() || old(self).is_failed()) ==> {
                &&& ((forall|j: int|
                    0 <= j < old(self).queued().len() ==> !A::fails_on(
                        #[trigger] old(self).queued()[j],
                    )) ==> outcome is Ok)
                &&& (outcome is Ok ==> {
                    &&& final(self).delivered() == old(self).delivered() + old(self).queued()
                    &&& final(self).queued() == Seq::<M>::empty()
                    &&& final(self).lost() == old(self).lost()
                    &&& !final(self).is_failed()
                    &&& (final(self).is_closed() <==> old(self).handles() <= 1)
                    &&& (final(self).is_closed() ==> final(self).close_calls() == 1)
                    &&& (!final(self).is_closed() ==> final(self).close_calls() == old(
                        self,
                    ).close_calls())
                    &&& (forall|j: int|
                        0 <= j < old(self).queued().len() ==> !A::fails_on(
                            #[trigger] old(self).queued()[j],
                        ))
                    &&& old(self).actor() is Some && final(self).actor() is Some
                    &&& exists|states: Seq<A>|
                        #[trigger] dispatch_trace(states, old(self).queued()) && states[0] == old(
                            self,
                        ).actor()->0 && (if final(self).is_closed() {
                            A::close_rel(states.last(), final(self).actor()->0)
                        } else {
                            final(self).actor()->0 == states.last()
                        })
                })
                &&& (outcome is Err ==> {
                    &&& final(self).is_failed()
                    &&& !final(self).is_closed()
                    &&& final(self).queued() == Seq::<M>::empty()
                    &&& final(self).actor() is None
                    &&& exists|i: int|
                        0 <= i < old(self).queued().len() && A::fails_on(
                            #[trigger] old(self).queued()[i],
                        ) && final(self).delivered() == old(self).delivered() + old(
                            self,
                        ).queued().take(i) && final(self).lost() == old(self).lost() + old(
                            self,
                        ).queued().skip(i)
                })
            },
    {
        let phase = self.router.current_phase();
        let failed = self.router.has_failed();
        if matches!(phase, RouterPhase::Closed) || failed {
            Ok(())
        } else {
            let outcome = route_wrapper(&mut self.router, &mut self.mailbox);
            proof {
                if outcome is Ok {
                    assert(self.sent_log@ =~= self.delivered() + self.lost() + self.queued());
                } else {
                    let i = choose|i: int|
                        0 <= i < old(self).queued().len() && self.delivered() == old(
                            self,
                        ).delivered() + old(self).queued().take(i) && self.lost() == old(
                            self,
                        ).lost() + old(self).queued().skip(i);
                    assert(old(self).queued().take(i) + old(self).queued().skip(i) =~= old(
                        self,
                    ).queued());
                    assert(self.sent_log@ =~= self.delivered() + self.lost() + self.queued());
                }
            }
            outcome
        }
    }

    /// One poll of the router: at most one message is dequeued and
    /// dispatched, and the shutdown rule is re-evaluated, exactly as one
    /// iteration of the driving loop would.
    pub fn pump_one(&mut self) -> (outcome: StepOutcome)
        requires
            old(self).inv(),
            !old(self).is_closed(),
            !old(self).is_failed(),
        ensures
            final(self).inv(),
            final(self).handles() == old(self).handles(),
            final(self).sent() == old(self).sent(),
            final(self).base() == old(self).base(),
            match outcome {
                StepOutcome::Delivered => {
                    &&& old(self).queued().len() > 0
                    &&& !A::fails_on(old(self).queued()[0])
                    &&& old(self).actor() is Some && final(self).actor() is Some
                    &&& A::dispatch_rel(
                        old(self).actor()->0,
                        final(self).actor()->0,
                        old(self).queued()[0],
                    )
                    &&& final(self).delivered() == old(self).delivered().push(
                        old(self).queued()[0],
                    )
                    &&& final(self).queued() == old(self).queued().drop_first()
                    &&& final(self).lost() == old(self).lost()
                    &&& !final(self).is_closed()
                    &&& !final(self).is_failed()
                    &&& (final(self).state() is Draining <==> old(self).handles() <= 1)
                },
                StepOutcome::Idle => {
                    &&& old(self).queued().len() == 0
                    &&& old(self).handles() > 1
                    &&& final(self).actor() == old(self).actor()
                    &&& final(self).delivered() == old(self).delivered()
                    &&& final(self).queued() == old(self).queued()
                    &&& final(self).lost() == old(self).lost()
                    &&& final(self).state() == old(self).state()
                    &&& !final(self).is_failed()
                },
                StepOutcome::Closed => {
                    &&& old(self).handles() <= 1
                    &&& old(self).queued().len() <= 1
                    &&& old(self).actor() is Some && final(self).actor() is Some
                    &&& (old(self).queued().len() == 0 ==> A::close_rel(
                        old(self).actor()->0,
                        final(self).actor()->0,
                    ))
                    &&& (old(self).queued().len() == 1 ==> !A::fails_on(old(self).queued()[0])
                        && exists|routed: A|
                        #[trigger] A::dispatch_rel(
                            old(self).actor()->0,
                            routed,
                            old(self).queued()[0],
                        ) && A::close_rel(routed, final(self).actor()->0))
                    &&& final(self).is_closed()
                    &&& final(self).close_calls() == 1
                    &&& final(self).delivered() == old(self).delivered() + old(self).queued()
                    &&& final(self).queued().len() == 0
                    &&& final(self).lost() == old(self).lost()
                    &&& !final(self).is_failed()
                },
                StepOutcome::Failed => {
                    &&& old(self).queued().len() > 0
                    &&& A::fails_on(old(self).queued()[0])
                    &&& final(self).is_failed()
                    &&& !final(self).is_closed()
                    &&& final(self).delivered() == old(self).delivered()
                    &&& final(self).lost() == old(self).lost() + old(self).queued()
                    &&& final(self).queued().len() == 0
                    &&& final(self).actor() is None
                },
            },
    {
        let outcome = self.router.step(&mut self.mailbox);
        proof {
            assert(self.sent_log@ =~= self.delivered() + self.lost() + self.queued());
        }
        outcome
    }

    /// The queue-depth counter.
    pub fn queue_depth(&self) -> (depth: usize)
        requires
            self.inv(),
        ensures
            depth == self.queued().len(),
    {
        self.mailbox.queue_depth()
    }

    /// The handle-count counter.
    pub fn handle_count(&self) -> (count: usize)
        ensures
            count == self.handles(),
    {
        self.mailbox.handle_count()
    }

    /// The router's phase, as a runtime value.
    pub fn current_phase(&self) -> (phase: RouterPhase)
        ensures
            phase == self.state(),
    {
        self.router.current_phase()
    }

    /// Whether a dispatch failure tore this cell down.
    pub fn has_failed(&self) -> (failed: bool)
        ensures
            failed == self.is_failed(),
    {
        self.router.has_failed()
    }

    /// A read-only borrow of the actor, for inspecting its state.
    pub fn borrow_actor(&self) -> (actor: Option<&A>)
        ensures
            match actor {
                Some(a) => self.actor() == Some(*a),
                None => self.actor() is None,
            },
    {
        self.router.borrow_actor()
    }
}

/// Spawns an actor: builds its mailbox, seats its router, and hands back
/// the cell, whose handle count stands at two — the router's own
/// bookkeeping reference plus the first sender handle.
pub fn actor_of<A, M>(actor_impl: A) -> (cell: ActorCell<A, M>) where A: Actor<M>
    requires
        actor_impl.wf(),
        !actor_impl.closed(),
    ensures
        cell.inv(),
        cell.actor() == Some(actor_impl),
        cell.state() is Running,
        !cell.is_failed(),
        !cell.is_closed(),
        cell.delivered() == Seq::<M>::empty(),
        cell.sent() == Seq::<M>::empty(),
        cell.lost() == Seq::<M>::empty(),
        cell.queued() == Seq::<M>::empty(),
        cell.base() == actor_impl.delivered(),
        cell.handles() == 2,
        cell.close_calls() == 0,
{
    let cell = ActorCell {
        router: Router::new(actor_impl),
        mailbox: Mailbox::new(),
        sent_log: Ghost(Seq::empty()),
    };
    proof {
        assert(cell.sent_log@ =~= cell.delivered() + cell.lost() + cell.queued());
    }
    cell
}

/// Delivery order is send order: in every reachable cell state, what the
/// actor has observed is exactly a prefix of what was accepted for
/// sending — no reordering, no duplication, no skipped message.
pub proof fn lemma_fifo<A, M>(cell: &ActorCell<A, M>) where A: Actor<M>
    requires
        cell.inv(),
    ensures
        cell.delivered().is_prefix_of(cell.sent()),
{
    assert(cell.sent().subrange(0, cell.delivered().len() as int) =~= cell.delivered());
}

/// At-most-one close: in every reachable cell state the actor's teardown
/// hook has run at most once, and exactly once iff the cell is closed.
pub proof fn lemma_at_most_one_close<A, M>(cell: &ActorCell<A, M>) where A: Actor<M>
    requires
        cell.inv(),
    ensures
        cell.close_calls() <= 1,
        cell.close_calls() == 1 <==> cell.is_closed(),
{
}

/// Shutdown safety: a closed cell holds no queued message — the actor was
/// never closed while work remained, and nothing enqueues afterwards.
pub proof fn lemma_shutdown_safety<A, M>(cell: &ActorCell<A, M>) where A: Actor<M>
    requires
        cell.inv(),
    ensures
        cell.is_closed() ==> cell.queued() == Seq::<M>::empty(),
{
    if cell.is_closed() {
        assert(cell.queued() =~= Seq::<M>::empty());
    }
}

/// A clean shutdown loses nothing: a closed cell's actor has observed
/// every message that was ever accepted from a sender, in send order.
pub proof fn lemma_closed_means_drained<A, M>(cell: &ActorCell<A, M>) where A: Actor<M>
    requires
        cell.inv(),
        cell.is_closed(),
    ensures
        cell.delivered() == cell.sent(),
{
    assert(cell.delivered() =~= cell.sent());
}

/// The actor's own observation history never diverges from the cell's
/// record: it is what the actor started with plus what was delivered.
pub proof fn lemma_actor_observation<A, M>(cell: &ActorCell<A, M>) where A: Actor<M>
    requires
        cell.inv(),
    ensures
        cell.actor() matches Some(a) ==> a.delivered() == cell.base() + cell.delivered(),
{
}

} // verus!

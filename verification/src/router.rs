//! The router: the driving loop that owns one actor instance and the
//! consuming end of its mailbox. It dequeues messages in FIFO order,
//! dispatches them, and evaluates the shutdown rule after every dequeue
//! attempt, so that the actor is torn down exactly once, and only after
//! its queue has drained.

use vstd::prelude::*;

use crate::actor::Actor;
use crate::actor::DispatchError;
use crate::actor::dispatch_trace;
use crate::mailbox::Mailbox;

verus! {

/// The router's state machine: `Running` while external handles survive,
/// `Draining` once no external sender remains but messages are still
/// queued, `Closed` once the actor's teardown hook has run. `Closed` is
/// terminal.
#[derive(Clone, Copy, PartialEq, Eq, Structural, Debug)]
pub enum RouterPhase {
    Running,
    Draining,
    Closed,
}

/// What one dequeue attempt did.
#[derive(Clone, Copy, PartialEq, Eq, Structural, Debug)]
pub enum StepOutcome {
    /// A message was dispatched successfully and the router keeps going.
    Delivered,
    /// The queue was empty and external handles survive: nothing to do.
    Idle,
    /// The shutdown rule fired: the mailbox was shut and the actor closed.
    Closed,
    /// Dispatch failed: the actor was discarded without closing, and the
    /// mailbox was shut with its still-queued messages lost.
    Failed,
}

/// Advances the idle-attempt counter kept across empty polls. The counter
/// is reset once it passes 90 purely to keep it bounded; it has no other
/// observable effect.
pub fn bump_empty_tries(empty_tries: usize) -> (bumped: usize)
    ensures
        bumped == if empty_tries > 90 { 1usize } else { (empty_tries + 1) as usize },
        1 <= bumped <= 91,
{
    if empty_tries > 90 {
        1
    } else {
        empty_tries + 1
    }
}

/// Owns one actor instance for its whole lifetime. `history` is the ghost
/// record of the messages dispatched successfully, oldest first; `lost`
/// records the messages discarded by an abnormal teardown; `initial` is
/// what the actor had already observed when the router took it over.
pub struct Router<A, M> where A: Actor<M> {
    actor_impl: Option<A>,
    phase: RouterPhase,
    failed: bool,
    empty_tries: usize,
    history: Ghost<Seq<M>>,
    discarded: Ghost<Seq<M>>,
    initial: Ghost<Seq<M>>,
    close_runs: Ghost<nat>,
}

impl<A, M> Router<A, M> where A: Actor<M> {
    /// The actor instance, while one is held. `None` only after a failed
    /// dispatch discarded it.
    pub closed spec fn actor(&self) -> Option<A> {
        self.actor_impl
    }

    /// The current state of the shutdown protocol.
    pub closed spec fn state(&self) -> RouterPhase {
        self.phase
    }

    /// Whether a dispatch failed and tore this router down abnormally.
    pub closed spec fn is_failed(&self) -> bool {
        self.failed
    }

    /// The messages dispatched successfully by this router, oldest first.
    pub closed spec fn processed(&self) -> Seq<M> {
        self.history@
    }

    /// The messages lost to an abnormal teardown: the one whose dispatch
    /// failed, followed by whatever was still queued behind it.
    pub closed spec fn lost(&self) -> Seq<M> {
        self.discarded@
    }

    /// What the actor had observed before this router took it over.
    pub closed spec fn base(&self) -> Seq<M> {
        self.initial@
    }

    /// How many times the actor's teardown hook has run: zero or one.
    pub closed spec fn close_calls(&self) -> nat {
        self.close_runs@
    }

    /// The router's internal consistency: the actor's observation history
    /// is exactly what it started with plus what this router dispatched;
    /// the actor is closed exactly in the terminal state; the teardown
    /// hook has run at most once, exactly when the terminal state was
    /// reached; a failed router has discarded its actor without closing.
    pub open spec fn inv(&self) -> bool {
        &&& (self.actor() matches Some(a) ==> {
            &&& a.wf()
            &&& a.delivered() == self.base() + self.processed()
            &&& (a.closed() <==> self.state() is Closed)
            &&& !self.is_failed()
        })
        &&& (self.actor() is None ==> self.is_failed())
        &&& (self.close_calls() == 1 <==> self.state() is Closed)
        &&& self.close_calls() <= 1
        &&& (self.is_failed() ==> !(self.state() is Closed))
        &&& (!self.is_failed() ==> self.lost() == Seq::<M>::empty())
    }

    /// How the router's state agrees with its mailbox: the mailbox is shut
    /// exactly once the router is done (closed or failed), no message is
    /// left queued after that, and `Draining` is only entered once no
    /// external handle survives.
    pub open spec fn sync(&self, mailbox: Mailbox<M>) -> bool {
        &&& mailbox.wf()
        &&& (mailbox.is_closed() <==> (self.state() is Closed || self.is_failed()))
        &&& ((self.state() is Closed || self.is_failed()) ==> mailbox.contents().len() == 0)
        &&& (self.state() is Draining ==> mailbox.handles() <= 1)
    }

    /// Takes ownership of a live actor instance and starts in `Running`.
    pub fn new(actor_impl: A) -> (router: Router<A, M>)
        requires
            actor_impl.wf(),
            !actor_impl.closed(),
        ensures
            router.inv(),
            router.actor() == Some(actor_impl),
            router.state() is Running,
            !router.is_failed(),
            router.processed() == Seq::<M>::empty(),
            router.lost() == Seq::<M>::empty(),
            router.base() == actor_impl.delivered(),
            router.close_calls() == 0,
    {
        let ghost initial = actor_impl.delivered();
        let router = Router {
            actor_impl: Some(actor_impl),
            phase: RouterPhase::Running,
            failed: false,
            empty_tries: 0,
            history: Ghost(Seq::empty()),
            discarded: Ghost(Seq::empty()),
            initial: Ghost(initial),
            close_runs: Ghost(0),
        };
        proof {
            assert(initial + Seq::<M>::empty() =~= initial);
        }
        router
    }

    /// A read-only borrow of the actor, for inspecting its state from
    /// outside; `None` once a failed dispatch discarded it.
    pub fn borrow_actor(&self) -> (actor: Option<&A>)
        ensures
            match actor {
                Some(a) => self.actor() == Some(*a),
                None => self.actor() is None,
            },
    {
        self.actor_impl.as_ref()
    }

    /// The current phase, as a runtime value.
    pub fn current_phase(&self) -> (phase: RouterPhase)
        ensures
            phase == self.state(),
    {
        self.phase
    }

    /// Whether a dispatch failure tore this router down.
    pub fn has_failed(&self) -> (failed: bool)
        ensures
            failed == self.is_failed(),
    {
        self.failed
    }

    /// One iteration of the driving loop: attempt a dequeue, dispatch on
    /// success, then re-evaluate the shutdown rule — close the actor and
    /// shut the mailbox iff the queue is empty and no external handle
    /// survives. Mirrors one poll of the mailbox by the routing task.
    pub fn step(&mut self, mailbox: &mut Mailbox<M>) -> (outcome: StepOutcome)
        requires
            old(self).inv(),
            old(self).sync(*old(mailbox)),
            !(old(self).state() is Closed),
            !old(self).is_failed(),
        ensures
            final(self).inv(),
            final(self).sync(*final(mailbox)),
            final(self).base() == old(self).base(),
            final(mailbox).handles() == old(mailbox).handles(),
            match outcome {
                StepOutcome::Delivered => {
                    &&& old(mailbox).contents().len() > 0
                    &&& !A::fails_on(old(mailbox).contents()[0])
                    &&& old(self).actor() is Some && final(self).actor() is Some
                    &&& A::dispatch_rel(
                        old(self).actor()->0,
                        final(self).actor()->0,
                        old(mailbox).contents()[0],
                    )
                    &&& final(self).processed() == old(self).processed().push(
                        old(mailbox).contents()[0],
                    )
                    &&& final(self).lost() == old(self).lost()
                    &&& final(mailbox).contents() == old(mailbox).contents().drop_first()
                    &&& final(self).state() == (if old(mailbox).handles() <= 1 {
                        RouterPhase::Draining
                    } else {
                        RouterPhase::Running
                    })
                    &&& !final(self).is_failed()
                    &&& final(self).close_calls() == old(self).close_calls()
                    &&& !final(mailbox).is_closed()
                },
                StepOutcome::Idle => {
                    &&& old(mailbox).contents().len() == 0
                    &&& old(mailbox).handles() > 1
                    &&& final(self).actor() == old(self).actor()
                    &&& final(self).processed() == old(self).processed()
                    &&& final(self).lost() == old(self).lost()
                    &&& final(mailbox).contents() == old(mailbox).contents()
                    &&& final(self).state() == old(self).state()
                    &&& !final(self).is_failed()
                    &&& final(self).close_calls() == old(self).close_calls()
                    &&& !final(mailbox).is_closed()
                },
                StepOutcome::Closed => {
                    &&& old(mailbox).handles() <= 1
                    &&& old(mailbox).contents().len() <= 1
                    &&& old(self).actor() is Some && final(self).actor() is Some
                    &&& (old(mailbox).contents().len() == 0 ==> A::close_rel(
                        old(self).actor()->0,
                        final(self).actor()->0,
                    ))
                    &&& (old(mailbox).contents().len() == 1 ==> !A::fails_on(
                        old(mailbox).contents()[0],
                    ) && exists|routed: A|
                        #[trigger] A::dispatch_rel(
                            old(self).actor()->0,
                            routed,
                            old(mailbox).contents()[0],
                        ) && A::close_rel(routed, final(self).actor()->0))
                    &&& final(self).state() is Closed
                    &&& final(self).close_calls() == 1
                    &&& final(self).processed() == old(self).processed() + old(
                        mailbox,
                    ).contents()
                    &&& final(self).lost() == old(self).lost()
                    &&& final(mailbox).contents().len() == 0
                    &&& final(mailbox).is_closed()
                    &&& !final(self).is_failed()
                },
                StepOutcome::Failed => {
                    &&& old(mailbox).contents().len() > 0
                    &&& A::fails_on(old(mailbox).contents()[0])
                    &&& final(self).is_failed()
                    &&& final(self).processed() == old(self).processed()
                    &&& final(self).lost() == old(self).lost() + old(mailbox).contents()
                    &&& final(mailbox).contents().len() == 0
                    &&& final(mailbox).is_closed()
                    &&& !(final(self).state() is Closed)
                    &&& final(self).close_calls() == old(self).close_calls()
                },
            },
    {
        match mailbox.try_recv() {
            Some(message) => {
                let ghost message_snapshot: M = message;
                let ghost rest = mailbox.contents();
                self.empty_tries = 0;
                let dispatched = match &mut self.actor_impl {
                    Some(actor) => actor.route_message(message),
                    None => Err(DispatchError),
                };
                match dispatched {
                    Ok(()) => {
                        let ghost routed_state: Option<A> = self.actor_impl;
                        self.history = Ghost(self.history@.push(message_snapshot));
                        proof {
                            assert(self.initial@ + self.history@ =~= (self.initial@
                                + old(self).history@).push(message_snapshot));
                        }
                        let queue_len = mailbox.queue_depth();
                        let handles = mailbox.handle_count();
                        if crate::shutdown_eligible(queue_len, handles) {
                            mailbox.close();
                            match &mut self.actor_impl {
                                Some(actor) => actor.close(),
                                None => (),
                            }
                            self.phase = RouterPhase::Closed;
                            self.close_runs = Ghost(1);
                            proof {
                                assert(old(mailbox).contents() =~= seq![message_snapshot]);
                                assert(old(self).history@ + old(mailbox).contents()
                                    =~= old(self).history@.push(message_snapshot));
                                assert(A::dispatch_rel(
                                    old(self).actor()->0,
                                    routed_state->0,
                                    old(mailbox).contents()[0],
                                ) && A::close_rel(routed_state->0, self.actor()->0));
                            }
                            StepOutcome::Closed
                        } else {
                            self.phase = if handles <= 1 {
                                RouterPhase::Draining
                            } else {
                                RouterPhase::Running
                            };
                            StepOutcome::Delivered
                        }
                    },
                    Err(_) => {
                        self.discarded = Ghost(
                            self.discarded@ + seq![message_snapshot] + rest,
                        );
                        mailbox.discard_queue();
                        mailbox.close();
                        self.actor_impl = None;
                        self.failed = true;
                        proof {
                            assert(seq![message_snapshot] + rest =~= old(mailbox).contents());
                            assert(old(self).discarded@ + seq![message_snapshot] + rest
                                =~= old(self).discarded@ + old(mailbox).contents());
                        }
                        StepOutcome::Failed
                    },
                }
            },
            None => {
                self.empty_tries = bump_empty_tries(self.empty_tries);
                let queue_len = mailbox.queue_depth();
                let handles = mailbox.handle_count();
                if crate::shutdown_eligible(queue_len, handles) {
                    mailbox.close();
                    match &mut self.actor_impl {
                        Some(actor) => actor.close(),
                        None => (),
                    }
                    self.phase = RouterPhase::Closed;
                    self.close_runs = Ghost(1);
                    proof {
                        assert(old(self).history@ + old(mailbox).contents()
                            =~= old(self).history@);
                    }
                    StepOutcome::Closed
                } else {
                    StepOutcome::Idle
                }
            },
        }
    }
}

/// The router's driving loop: dequeues and dispatches queued messages in
/// FIFO order until the mailbox is empty, closing the actor exactly when
/// the shutdown rule fires — queue drained and no external handle left.
///
/// On success the whole queue found at entry has been dispatched, in
/// order, and the router is closed iff no external handle survived; so
/// queued work always drains before shutdown. On a dispatch failure the
/// failing message and everything queued behind it are lost, the actor is
/// discarded without its teardown hook, and the failure is handed to the
/// embedding context (a supervisor) to recover.
pub fn route_wrapper<A, M>(router: &mut Router<A, M>, mailbox: &mut Mailbox<M>) -> (outcome:
    Result<(), DispatchError>) where A: Actor<M>
    requires
        old(router).inv(),
        old(router).sync(*old(mailbox)),
        !(old(router).state() is Closed),
        !old(router).is_failed(),
    ensures
        final(router).inv(),
        final(router).sync(*final(mailbox)),
        final(router).base() == old(router).base(),
        final(mailbox).handles() == old(mailbox).handles(),
        outcome is Ok ==> {
            &&& final(router).processed() == old(router).processed() + old(mailbox).contents()
            &&& final(router).lost() == old(router).lost()
            &&& final(mailbox).contents().len() == 0
            &&& !final(router).is_failed()
            &&& (final(router).state() is Closed <==> old(mailbox).handles() <= 1)
            &&& (final(router).state() is Closed ==> final(router).close_calls() == 1
                && final(mailbox).is_closed())
            &&& (!(final(router).state() is Closed) ==> final(router).close_calls() == old(
                router,
            ).close_calls() && !final(mailbox).is_closed())
            &&& (forall|j: int|
                0 <= j < old(mailbox).contents().len() ==> !A::fails_on(
                    #[trigger] old(mailbox).contents()[j],
                ))
            &&& old(router).actor() is Some && final(router).actor() is Some
            &&& exists|states: Seq<A>|
                #[trigger] dispatch_trace(states, old(mailbox).contents()) && states[0] == old(
                    router,
                ).actor()->0 && (if final(router).state() is Closed {
                    A::close_rel(states.last(), final(router).actor()->0)
                } else {
                    final(router).actor()->0 == states.last()
                })
        },
        outcome is Err ==> {
            &&& final(router).is_failed()
            &&& !(final(router).state() is Closed)
            &&& final(router).close_calls() == old(router).close_calls()
            &&& final(mailbox).contents().len() == 0
            &&& final(mailbox).is_closed()
            &&& exists|i: int|
                0 <= i < old(mailbox).contents().len() && A::fails_on(
                    old(mailbox).contents()[i],
                ) && final(router).processed() == old(router).processed() + old(
                    mailbox,
                ).contents().take(i) && final(router).lost() == old(router).lost() + old(
                    mailbox,
                ).contents().skip(i)
        },
{
    let ghost router0: Router<A, M> = *router;
    let ghost mailbox0: Mailbox<M> = *mailbox;
    let ghost mut consumed: int = 0;
    let ghost actor0: A = router.actor()->0;
    let ghost mut trace: Seq<A> = seq![actor0];
    loop
        invariant
            router0 == *old(router),
            mailbox0 == *old(mailbox),
            actor0 == router0.actor()->0,
            router0.actor() is Some,
            router.inv(),
            router.sync(*mailbox),
            !(router.state() is Closed),
            !router.is_failed(),
            0 <= consumed <= mailbox0.contents().len(),
            mailbox.contents() == mailbox0.contents().skip(consumed),
            router.processed() == router0.processed() + mailbox0.contents().take(consumed),
            router.lost() == router0.lost(),
            router.base() == router0.base(),
            router.close_calls() == router0.close_calls(),
            mailbox.handles() == mailbox0.handles(),
            !mailbox.is_closed(),
            router.actor() is Some,
            trace.len() == consumed + 1,
            trace[0] == actor0,
            trace.last() == router.actor()->0,
            dispatch_trace(trace, mailbox0.contents().take(consumed)),
            forall|j: int|
                0 <= j < consumed ==> !A::fails_on(#[trigger] mailbox0.contents()[j]),
        decreases mailbox0.contents().len() - consumed,
    {
        let ghost step_pre_actor: A = router.actor()->0;
        let outcome = router.step(mailbox);
        match outcome {
            StepOutcome::Delivered => {
                proof {
                    assert(mailbox0.contents().skip(consumed).drop_first() =~= mailbox0.contents()
                        .skip(consumed + 1));
                    assert(mailbox0.contents().take(consumed + 1) =~= mailbox0.contents().take(
                        consumed,
                    ).push(mailbox0.contents()[consumed]));
                    let pre_trace = trace;
                    let stepped: A = router.actor()->0;
                    trace = pre_trace.push(stepped);
                    assert forall|j: int|
                        0 <= j < consumed + 1 implies #[trigger] A::dispatch_rel(
                        trace[j],
                        trace[j + 1],
                        mailbox0.contents().take(consumed + 1)[j],
                    ) by {
                        if j < consumed {
                            assert(A::dispatch_rel(
                                pre_trace[j],
                                pre_trace[j + 1],
                                mailbox0.contents().take(consumed)[j],
                            ));
                        } else {
                            assert(A::dispatch_rel(
                                step_pre_actor,
                                stepped,
                                mailbox0.contents().skip(consumed)[0],
                            ));
                        }
                    }
                    consumed = consumed + 1;
                }
            },
            StepOutcome::Idle => {
                proof {
                    assert(mailbox0.contents().take(consumed) =~= mailbox0.contents());
                    assert(dispatch_trace(trace, mailbox0.contents()) && trace[0] == old(
                        router,
                    ).actor()->0 && router.actor()->0 == trace.last());
                }
                return Ok(());
            },
            StepOutcome::Closed => {
                proof {
                    assert(router0.processed() + mailbox0.contents().take(consumed)
                        + mailbox0.contents().skip(consumed) =~= router0.processed()
                        + mailbox0.contents());
                    if consumed == mailbox0.contents().len() {
                        assert(mailbox0.contents().take(consumed) =~= mailbox0.contents());
                        assert(dispatch_trace(trace, mailbox0.contents()) && trace[0] == old(
                            router,
                        ).actor()->0 && A::close_rel(trace.last(), router.actor()->0));
                    } else {
                        let head = mailbox0.contents().skip(consumed)[0];
                        assert(head == mailbox0.contents()[consumed]);
                        let routed = choose|routed: A|
                            #[trigger] A::dispatch_rel(step_pre_actor, routed, head)
                                && A::close_rel(routed, router.actor()->0);
                        let full = trace.push(routed);
                        assert(mailbox0.contents().take(consumed + 1) =~= mailbox0.contents());
                        assert(mailbox0.contents().take(consumed + 1) =~= mailbox0.contents().take(
                            consumed,
                        ).push(head));
                        assert forall|j: int|
                            0 <= j < consumed + 1 implies #[trigger] A::dispatch_rel(
                            full[j],
                            full[j + 1],
                            mailbox0.contents()[j],
                        ) by {
                            if j < consumed {
                                assert(A::dispatch_rel(
                                    trace[j],
                                    trace[j + 1],
                                    mailbox0.contents().take(consumed)[j],
                                ));
                            } else {
                                assert(A::dispatch_rel(step_pre_actor, routed, head));
                            }
                        }
                        assert(dispatch_trace(full, mailbox0.contents()) && full[0] == old(
                            router,
                        ).actor()->0 && A::close_rel(full.last(), router.actor()->0));
                        assert forall|j: int|
                            0 <= j < mailbox0.contents().len() implies !A::fails_on(
                            #[trigger] mailbox0.contents()[j],
                        ) by {
                            if j == consumed {
                                assert(!A::fails_on(head));
                            }
                        }
                    }
                }
                return Ok(());
            },
            StepOutcome::Failed => {
                return Err(DispatchError);
            },
        }
    }
}

} // verus!

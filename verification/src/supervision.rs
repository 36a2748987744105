//! Supervision: a fixed set of named children, each an actor seated in
//! its own cell, owned by one supervisor that routes addressed messages
//! to them and replaces a child whose message handling fails.

use vstd::prelude::*;

use crate::actor::Actor;
use crate::actor::DispatchError;
use crate::actor::dispatch_trace;
use crate::cell::ActorCell;
use crate::cell::actor_of;

verus! {

/// When a child should be restarted. Carried for future enforcement:
/// the restart logic does not branch on it — every failure is restarted.
#[derive(Clone, Copy, PartialEq, Eq, Structural, Debug)]
pub enum RestartPolicy {
    Transient,
    Persistent,
    Temporary,
}

/// How a child should be shut down. Carried for future enforcement.
#[derive(Clone, Copy, PartialEq, Eq, Structural, Debug)]
pub enum ShutdownPolicy {
    Eventually,
    Immediately,
    Brute,
}

/// What kind of unit a child is. Carried for future enforcement.
#[derive(Clone, Copy, PartialEq, Eq, Structural, Debug)]
pub enum ChildKind {
    Worker,
    Supervisor,
}

/// Builds fresh actor instances: the start factory of a child. It is
/// invoked at the initial spawn and again at every restart, and always
/// yields an instance with nothing observed and its teardown hook unrun.
pub trait ActorFactory<A, M>: Sized where A: Actor<M> {
    /// A brand-new actor instance.
    fn start(&self) -> (actor: A)
        ensures
            actor.wf(),
            actor.delivered() == Seq::<M>::empty(),
            !actor.closed(),
    ;
}

/// An immutable descriptor of one supervised child: its unique key, the
/// factory that (re)builds it, and its policy tags.
pub struct ChildSpec<F> {
    pub key: String,
    pub start: F,
    pub restart: RestartPolicy,
    pub shutdown: ShutdownPolicy,
    pub kind: ChildKind,
}

impl<F> ChildSpec<F> {
    /// Bundles a child descriptor.
    pub fn new(key: String, start: F, restart: RestartPolicy, shutdown: ShutdownPolicy,
        kind: ChildKind) -> (child_spec: ChildSpec<F>)
        ensures
            child_spec.key == key,
            child_spec.start == start,
            child_spec.restart == restart,
            child_spec.shutdown == shutdown,
            child_spec.kind == kind,
    {
        ChildSpec { key, start, restart, shutdown, kind }
    }
}

/// One supervised child: its cell and the descriptor that rebuilds it.
struct Child<A, M, F> where A: Actor<M> {
    cell: ActorCell<A, M>,
    child_spec: ChildSpec<F>,
}

/// Owns a fixed set of named children, routes addressed messages to
/// them, and replaces a child whose message handling fails with a fresh
/// instance built by its descriptor's factory — crash-and-recreate, so
/// no state of the failed instance survives.
pub struct Supervisor<A, M, F> where A: Actor<M>, F: ActorFactory<A, M> {
    children: Vec<Child<A, M, F>>,
    routed: Ghost<Seq<(String, M)>>,
    closed_flag: bool,
}

/// What a delivery attempt through the supervisor did.
#[derive(Clone, Copy, PartialEq, Eq, Structural, Debug)]
pub enum RouteOutcome {
    /// The child handled the message.
    Delivered,
    /// The child failed on the message and was replaced by a fresh
    /// instance under the same key; the message is not redelivered.
    Restarted,
    /// No child owns the key; the message was dropped without effect.
    UnknownKey,
}

impl<A, M, F> Supervisor<A, M, F> where A: Actor<M>, F: ActorFactory<A, M> {
    /// The children's keys, in insertion order.
    pub closed spec fn keys(&self) -> Seq<Seq<char>> {
        self.children@.map_values(|child: Child<A, M, F>| child.child_spec.key@)
    }

    /// The children's cells, in the same order as `keys`.
    pub closed spec fn cells(&self) -> Seq<ActorCell<A, M>> {
        self.children@.map_values(|child: Child<A, M, F>| child.cell)
    }

    /// The addressed messages this supervisor has observed, oldest first.
    pub closed spec fn routed_log(&self) -> Seq<(String, M)> {
        self.routed@
    }

    /// Whether the supervisor's own teardown hook has run.
    pub closed spec fn closed_down(&self) -> bool {
        self.closed_flag
    }

    /// Whether some child owns this key.
    pub open spec fn spec_has_child(&self, key: Seq<char>) -> bool {
        self.keys().contains(key)
    }

    /// The position of the child owning this key; meaningful only when
    /// `spec_has_child` holds, since keys are unique.
    pub open spec fn child_index(&self, key: Seq<char>) -> int {
        self.keys().index_of(key)
    }

    /// What holds of every child the supervisor owns: a live, unfailed
    /// cell whose queue is drained after every routing turn, reached by
    /// exactly the supervisor's own handle, seated with a fresh actor.
    pub open spec fn child_ok(cell: ActorCell<A, M>) -> bool {
        &&& cell.inv()
        &&& !cell.is_closed()
        &&& !cell.is_failed()
        &&& cell.handles() == 2
        &&& cell.queued() == Seq::<M>::empty()
        &&& cell.base() == Seq::<M>::empty()
    }

    /// The supervisor's invariant: one cell per key, keys unique, every
    /// child in good standing.
    pub open spec fn inv(&self) -> bool {
        &&& self.keys().len() == self.cells().len()
        &&& (forall|i: int, j: int|
            0 <= i < j < self.keys().len() ==> self.keys()[i] != self.keys()[j])
        &&& (forall|i: int|
            0 <= i < self.cells().len() ==> Self::child_ok(#[trigger] self.cells()[i]))
    }

    /// Builds the supervisor's children from their descriptors, spawning
    /// one fresh actor per descriptor, in order.
    pub fn new(child_specs: Vec<ChildSpec<F>>) -> (sup: Supervisor<A, M, F>)
        requires
            forall|i: int, j: int|
                0 <= i < j < child_specs@.len() ==> child_specs@[i].key@ != child_specs@[j].key@,
        ensures
            sup.inv(),
            !sup.closed_down(),
            sup.routed_log() == Seq::<(String, M)>::empty(),
            sup.keys() == child_specs@.map_values(|child_spec: ChildSpec<F>| child_spec.key@),
            forall|i: int|
                0 <= i < sup.cells().len() ==> (#[trigger] sup.cells()[i]).delivered()
                    == Seq::<M>::empty(),
    {
        let ghost specs0 = child_specs@;
        let mut remaining = child_specs;
        let mut children: Vec<Child<A, M, F>> = Vec::new();
        while remaining.len() > 0
            invariant
                children@.len() + remaining@.len() == specs0.len(),
                remaining@ == specs0.skip(children@.len() as int),
                forall|j: int|
                    0 <= j < children@.len() ==> (#[trigger] children@[j]).child_spec
                        == specs0[j],
                forall|j: int|
                    0 <= j < children@.len() ==> Self::child_ok((#[trigger] children@[j]).cell)
                        && children@[j].cell.delivered() == Seq::<M>::empty(),
            decreases remaining@.len(),
        {
            let child_spec = remaining.remove(0);
            let actor_impl = child_spec.start.start();
            let cell = actor_of(actor_impl);
            children.push(Child { cell, child_spec });
            proof {
                assert(remaining@ =~= specs0.skip(children@.len() as int));
            }
        }
        let sup = Supervisor { children, routed: Ghost(Seq::empty()), closed_flag: false };
        proof {
            assert(sup.keys() =~= specs0.map_values(|child_spec: ChildSpec<F>| child_spec.key@));
        }
        sup
    }

    /// Looks a key up in the child map, by position.
    fn find_child(&self, key: &String) -> (found: Option<usize>)
        requires
            self.inv(),
        ensures
            match found {
                Some(i) => i < self.cells().len() && self.keys()[i as int] == key@,
                None => !self.spec_has_child(key@),
            },
    {
        let mut i: usize = 0;
        while i < self.children.len()
            invariant
                self.inv(),
                i <= self.children@.len(),
                self.keys().len() == self.children@.len(),
                forall|j: int| 0 <= j < i ==> self.keys()[j] != key@,
            decreases self.children@.len() - i,
        {
            if self.children[i].child_spec.key == *key {
                assert(self.keys()[i as int] == key@);
                return Some(i);
            }
            assert(self.keys()[i as int] == self.children@[i as int].child_spec.key@);
            i = i + 1;
        }
        None
    }

    /// Routes one addressed message. An absent key is a no-op: no error,
    /// no effect on any child. A present key has the payload forwarded
    /// into that child's mailbox and the child's router driven; on a
    /// dispatch failure the crashed child is discarded — its mailbox and
    /// anything still queued there are lost — and a fresh instance from
    /// its descriptor's factory takes its place under the same key.
    /// Siblings are never touched, whatever happens.
    pub fn route_to_child(&mut self, key: &String, payload: M) -> (outcome: RouteOutcome)
        requires
            old(self).inv(),
        ensures
            final(self).inv(),
            final(self).routed_log() == old(self).routed_log(),
            final(self).closed_down() == old(self).closed_down(),
            final(self).keys() == old(self).keys(),
            !old(self).spec_has_child(key@) ==> {
                &&& outcome == RouteOutcome::UnknownKey
                &&& final(self).cells() == old(self).cells()
            },
            old(self).spec_has_child(key@) ==> {
                &&& (outcome is Delivered <==> !A::fails_on(payload))
                &&& (outcome is Restarted <==> A::fails_on(payload))
                &&& (forall|j: int|
                    0 <= j < old(self).cells().len() && j != old(self).child_index(key@)
                        ==> final(self).cells()[j] == old(self).cells()[j])
                &&& (outcome is Delivered ==> final(self).cells()[old(self).child_index(key@)]
                    .delivered() == old(self).cells()[old(self).child_index(key@)].delivered()
                    .push(payload) && final(self).cells()[old(self).child_index(key@)].sent()
                    == old(self).cells()[old(self).child_index(key@)].sent().push(payload))
                &&& (outcome is Restarted ==> final(self).cells()[old(self).child_index(key@)]
                    .delivered() == Seq::<M>::empty() && final(self).cells()[old(
                    self,
                ).child_index(key@)].sent() == Seq::<M>::empty())
            },
    {
        let found = self.find_child(key);
        match found {
            None => RouteOutcome::UnknownKey,
            Some(i) => {
                proof {
                    let idx = old(self).child_index(key@);
                    assert(old(self).spec_has_child(key@));
                    assert(0 <= idx < old(self).keys().len() && old(self).keys()[idx] == key@);
                    assert(idx == i as int);
                    assert(Self::child_ok(old(self).cells()[i as int]));
                    assert(old(self).cells()[i as int] == old(self).children@[i as int].cell);
                }
                let mut child = self.children.remove(i);
                let send_outcome = child.cell.send(payload);
                let ghost child_queued = child.cell.queued();
                let pump_outcome = child.cell.pump();
                proof {
                    assert(Seq::<M>::empty().push(payload) =~= seq![payload]);
                    assert(old(self).cells()[i as int].delivered() + seq![payload] =~= old(
                        self,
                    ).cells()[i as int].delivered().push(payload));
                    assert(child_queued[0] == payload);
                    if pump_outcome is Ok {
                        assert(!A::fails_on(payload));
                    } else {
                        if !A::fails_on(payload) {
                            assert forall|j: int|
                                0 <= j < child_queued.len() implies !A::fails_on(
                                #[trigger] child_queued[j],
                            ) by {
                                assert(child_queued[j] == payload);
                            }
                            assert(false);
                        }
                    }
                }
                match pump_outcome {
                    Ok(()) => {
                        let ghost settled = child;
                        self.children.insert(i, child);
                        proof {
                            assert(self.children@ =~= old(self).children@.update(
                                i as int,
                                settled,
                            ));
                            assert(self.keys() =~= old(self).keys());
                            assert(self.cells() =~= old(self).cells().update(
                                i as int,
                                settled.cell,
                            ));
                            assert(Self::child_ok(settled.cell));
                            assert forall|j: int|
                                0 <= j < self.cells().len() implies Self::child_ok(
                                #[trigger] self.cells()[j],
                            ) by {
                                if j != i as int {
                                    assert(self.cells()[j] == old(self).cells()[j]);
                                    assert(Self::child_ok(old(self).cells()[j]));
                                }
                            }
                        }
                        RouteOutcome::Delivered
                    },
                    Err(_) => {
                        let fresh_actor = child.child_spec.start.start();
                        let fresh_cell = actor_of(fresh_actor);
                        let replacement = Child { cell: fresh_cell, child_spec: child.child_spec };
                        let ghost settled = replacement;
                        self.children.insert(i, replacement);
                        proof {
                            assert(self.children@ =~= old(self).children@.update(
                                i as int,
                                settled,
                            ));
                            assert(self.keys() =~= old(self).keys());
                            assert(self.cells() =~= old(self).cells().update(
                                i as int,
                                settled.cell,
                            ));
                            assert(Self::child_ok(settled.cell));
                            assert forall|j: int|
                                0 <= j < self.cells().len() implies Self::child_ok(
                                #[trigger] self.cells()[j],
                            ) by {
                                if j != i as int {
                                    assert(self.cells()[j] == old(self).cells()[j]);
                                    assert(Self::child_ok(old(self).cells()[j]));
                                }
                            }
                        }
                        RouteOutcome::Restarted
                    },
                }
            },
        }
    }

    /// A read-only borrow of the actor seated under this key, for
    /// inspecting its state from outside; `None` for an unknown key.
    pub fn borrow_child_actor(&self, key: &String) -> (actor: Option<&A>)
        requires
            self.inv(),
        ensures
            match actor {
                Some(a) => self.spec_has_child(key@) && self.cells()[self.child_index(key@)]
                    .actor() == Some(*a),
                None => !self.spec_has_child(key@),
            },
    {
        let found = self.find_child(key);
        match found {
            None => None,
            Some(i) => {
                proof {
                    let idx = self.child_index(key@);
                    assert(self.spec_has_child(key@));
                    assert(0 <= idx < self.keys().len() && self.keys()[idx] == key@);
                    assert(idx == i as int);
                    assert(Self::child_ok(self.cells()[i as int]));
                }
                self.children[i].cell.borrow_actor()
            },
        }
    }
}

impl<A, M, F> Actor<(String, M)> for Supervisor<A, M, F> where
    A: Actor<M>,
    F: ActorFactory<A, M>,
 {
    open spec fn wf(&self) -> bool {
        self.inv()
    }

    open spec fn delivered(&self) -> Seq<(String, M)> {
        self.routed_log()
    }

    open spec fn closed(&self) -> bool {
        self.closed_down()
    }

    open spec fn fails_on(message: (String, M)) -> bool {
        false
    }

    /// One routed message's whole effect on the child map: keys fixed;
    /// an absent key changes nothing; a present key leaves every sibling
    /// untouched and either extends the addressed child's observation by
    /// the payload or, where the payload is in the child type's failure
    /// domain, replaces that child with a fresh instance.
    open spec fn dispatch_rel(pre: Self, post: Self, message: (String, M)) -> bool {
        &&& pre.inv()
        &&& post.inv()
        &&& post.keys() == pre.keys()
        &&& (!pre.spec_has_child(message.0@) ==> post.cells() == pre.cells())
        &&& (pre.spec_has_child(message.0@) ==> {
            &&& (forall|j: int|
                0 <= j < pre.cells().len() && j != pre.child_index(message.0@)
                    ==> post.cells()[j] == pre.cells()[j])
            &&& (!A::fails_on(message.1) ==> post.cells()[pre.child_index(message.0@)].delivered()
                == pre.cells()[pre.child_index(message.0@)].delivered().push(message.1)
                && post.cells()[pre.child_index(message.0@)].sent() == pre.cells()[pre.child_index(
                message.0@,
            )].sent().push(message.1))
            &&& (A::fails_on(message.1) ==> post.cells()[pre.child_index(message.0@)].delivered()
                == Seq::<M>::empty() && post.cells()[pre.child_index(message.0@)].sent()
                == Seq::<M>::empty())
        })
    }

    /// The supervisor's teardown only marks the supervisor itself: the
    /// child map and the routed log survive untouched.
    open spec fn close_rel(pre: Self, post: Self) -> bool {
        &&& post.keys() == pre.keys()
        &&& post.cells() == pre.cells()
        &&& post.routed_log() == pre.routed_log()
    }

    fn route_message(&mut self, message: (String, M)) -> (outcome: Result<(), DispatchError>) {
        let ghost message_snapshot = message;
        let (key, payload) = message;
        // The outcome is absorbed here: a crashed child has already been
        // replaced, and a lookup miss is a no-op by design, so a failure
        // never propagates past the supervisor boundary.
        let _ = self.route_to_child(&key, payload);
        self.routed = Ghost(self.routed@.push(message_snapshot));
        Ok(())
    }

    fn get_actor_name(&self) -> &str {
        "supervisor"
    }

    fn close(&mut self) {
        self.closed_flag = true;
    }
}

/// Sibling isolation across a whole run of the driving loop: over any
/// trace of routed messages, the key set never moves, and a child whose
/// key no message addresses ends exactly as it began — cell, state and
/// observation history untouched, whatever happened to the others.
pub proof fn lemma_trace_preserves_unaddressed<A, M, F>(
    states: Seq<Supervisor<A, M, F>>,
    messages: Seq<(String, M)>,
    key: Seq<char>,
) where A: Actor<M>, F: ActorFactory<A, M>
    requires
        dispatch_trace(states, messages),
        forall|j: int| 0 <= j < messages.len() ==> (#[trigger] messages[j]).0@ != key,
    ensures
        states.last().keys() == states[0].keys(),
        states[0].spec_has_child(key) ==> states.last().cells()[states[0].child_index(key)]
            == states[0].cells()[states[0].child_index(key)],
    decreases messages.len(),
{
    if messages.len() > 0 {
        assert(<Supervisor<A, M, F> as Actor<(String, M)>>::dispatch_rel(
            states[0],
            states[1],
            messages[0],
        ));
        let tail_states = states.drop_first();
        let tail_messages = messages.drop_first();
        assert forall|j: int|
            0 <= j < tail_messages.len() implies #[trigger] <Supervisor<A, M, F> as Actor<(
                String,
                M,
            )>>::dispatch_rel(tail_states[j], tail_states[j + 1], tail_messages[j]) by {
            assert(<Supervisor<A, M, F> as Actor<(String, M)>>::dispatch_rel(
                states[j + 1],
                states[j + 2],
                messages[j + 1],
            ));
        }
        assert forall|j: int|
            0 <= j < tail_messages.len() implies (#[trigger] tail_messages[j]).0@ != key by {
            assert(messages[j + 1].0@ != key);
        }
        lemma_trace_preserves_unaddressed(tail_states, tail_messages, key);
        if states[0].spec_has_child(key) {
            let idx = states[0].child_index(key);
            assert(0 <= idx < states[0].keys().len() && states[0].keys()[idx] == key);
            if states[0].spec_has_child(messages[0].0@) {
                let addressed = states[0].child_index(messages[0].0@);
                assert(0 <= addressed < states[0].keys().len() && states[0].keys()[addressed]
                    == messages[0].0@);
                assert(addressed != idx);
                assert(states[1].cells()[idx] == states[0].cells()[idx]);
            } else {
                assert(states[1].cells()[idx] == states[0].cells()[idx]);
            }
            assert(states[1].spec_has_child(key));
            assert(states[1].child_index(key) == idx);
        }
    }
}

/// Unknown keys across a whole run: messages addressed only to keys the
/// child map does not hold leave every child exactly as it was.
pub proof fn lemma_trace_unknown_keys<A, M, F>(
    states: Seq<Supervisor<A, M, F>>,
    messages: Seq<(String, M)>,
) where A: Actor<M>, F: ActorFactory<A, M>
    requires
        dispatch_trace(states, messages),
        forall|j: int|
            0 <= j < messages.len() ==> !states[0].spec_has_child((#[trigger] messages[j]).0@),
    ensures
        states.last().keys() == states[0].keys(),
        states.last().cells() == states[0].cells(),
    decreases messages.len(),
{
    if messages.len() > 0 {
        assert(<Supervisor<A, M, F> as Actor<(String, M)>>::dispatch_rel(
            states[0],
            states[1],
            messages[0],
        ));
        assert(!states[0].spec_has_child(messages[0].0@));
        let tail_states = states.drop_first();
        let tail_messages = messages.drop_first();
        assert forall|j: int|
            0 <= j < tail_messages.len() implies #[trigger] <Supervisor<A, M, F> as Actor<(
                String,
                M,
            )>>::dispatch_rel(tail_states[j], tail_states[j + 1], tail_messages[j]) by {
            assert(<Supervisor<A, M, F> as Actor<(String, M)>>::dispatch_rel(
                states[j + 1],
                states[j + 2],
                messages[j + 1],
            ));
        }
        assert forall|j: int|
            0 <= j < tail_messages.len() implies !tail_states[0].spec_has_child(
            (#[trigger] tail_messages[j]).0@,
        ) by {
            assert(!states[0].spec_has_child(messages[j + 1].0@));
        }
        lemma_trace_unknown_keys(tail_states, tail_messages);
    }
}

/// Crash-and-recreate across the driving loop: a message inside the
/// child type's failure domain followed by one outside it, both to the
/// same key, ends with a replacement instance under that key that has
/// observed exactly the later message — nothing of the crashed instance
/// survives.
pub proof fn lemma_trace_restart_scenario<A, M, F>(
    states: Seq<Supervisor<A, M, F>>,
    messages: Seq<(String, M)>,
) where A: Actor<M>, F: ActorFactory<A, M>
    requires
        dispatch_trace(states, messages),
        messages.len() == 2,
        messages[1].0@ == messages[0].0@,
        states[0].spec_has_child(messages[0].0@),
        A::fails_on(messages[0].1),
        !A::fails_on(messages[1].1),
    ensures
        states.last().keys() == states[0].keys(),
        states.last().cells()[states[0].child_index(messages[0].0@)].delivered() == seq![
            messages[1].1,
        ],
{
    let key = messages[0].0@;
    assert(<Supervisor<A, M, F> as Actor<(String, M)>>::dispatch_rel(
        states[0],
        states[1],
        messages[0],
    ));
    assert(<Supervisor<A, M, F> as Actor<(String, M)>>::dispatch_rel(
        states[1],
        states[2],
        messages[1],
    ));
    let idx = states[0].child_index(key);
    assert(0 <= idx < states[0].keys().len() && states[0].keys()[idx] == key);
    assert(states[1].cells()[idx].delivered() == Seq::<M>::empty());
    assert(states[1].spec_has_child(key));
    assert(states[1].child_index(key) == idx);
    assert(states[2].cells()[idx].delivered() == states[1].cells()[idx].delivered().push(
        messages[1].1,
    ));
    assert(Seq::<M>::empty().push(messages[1].1) =~= seq![messages[1].1]);
    assert(states.last() == states[2]);
}

} // verus!

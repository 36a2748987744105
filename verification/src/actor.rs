//! The actor abstraction: a polymorphic unit of sequential logic with a
//! message handler and a teardown hook, together with the error values of
//! the runtime.

use vstd::prelude::*;

verus! {

/// Error returned by a send whose target mailbox has already closed its
/// consuming end: the actor is gone and the message is not enqueued.
#[derive(Clone, Copy, PartialEq, Eq, Structural, Debug)]
pub enum SendError {
    Disconnected,
}

/// Typed outcome of a dispatch that failed abnormally. A supervisor treats
/// it as "replace this child"; an unsupervised router treats it as fatal
/// for the actor it drives.
#[derive(Clone, Copy, PartialEq, Eq, Structural, Debug)]
pub struct DispatchError;

/// A unit of sequential state reachable only through messages. Exactly one
/// router drives a given actor instance; the contracts below are what that
/// router relies on.
///
/// `delivered()` abstracts the actor's observation history: the messages it
/// has accepted through `route_message`, in order. `closed()` abstracts
/// whether the teardown hook has run.
pub trait Actor<M>: Sized {
    /// The actor's own well-formedness: constructors establish it, and
    /// the runtime preserves it across every dispatch and the teardown.
    spec fn wf(&self) -> bool;

    /// The messages this actor has observed, oldest first.
    spec fn delivered(&self) -> Seq<M>;

    /// Whether the teardown hook `close` has run.
    spec fn closed(&self) -> bool;

    /// The actor type's declared failure domain: dispatch fails exactly
    /// on the messages inside it, and is owed success on every other one.
    spec fn fails_on(message: M) -> bool;

    /// The actor type's transition relation: what one successful dispatch
    /// of `message` does to the actor's observable state. The runtime
    /// reports it for every message it dispatches, so the effect of a
    /// whole run of the driving loop can be chained from it.
    spec fn dispatch_rel(pre: Self, post: Self, message: M) -> bool;

    /// What the teardown hook leaves alone: everything an embedding still
    /// reads after shutdown must be stated unchanged here.
    spec fn close_rel(pre: Self, post: Self) -> bool;

    /// Handles one message. On success the message is appended to the
    /// observation history and the type's transition relation holds; on
    /// failure the actor's state is unspecified (a supervisor discards
    /// the instance), but it has not closed itself.
    fn route_message(&mut self, message: M) -> (outcome: Result<(), DispatchError>)
        requires
            old(self).wf(),
            !old(self).closed(),
        ensures
            final(self).wf(),
            outcome is Ok ==> final(self).delivered() == old(self).delivered().push(message),
            outcome is Ok ==> Self::dispatch_rel(*old(self), *final(self), message),
            outcome is Err <==> Self::fails_on(message),
            final(self).closed() == old(self).closed(),
    ;

    /// A short human-readable name for diagnostics.
    fn get_actor_name(&self) -> &str;

    /// The teardown hook. The runtime invokes it at most once per actor
    /// instance, and never while messages remain queued.
    fn close(&mut self)
        requires
            old(self).wf(),
            !old(self).closed(),
        ensures
            final(self).wf(),
            final(self).closed(),
            final(self).delivered() == old(self).delivered(),
            Self::close_rel(*old(self), *final(self)),
    ;
}

/// One run's worth of dispatches, witnessed by the intermediate actor
/// states: `states[0]` is the actor before the run, `states[j + 1]` its
/// state after dispatching `messages[j]`, every step a successful
/// dispatch obeying the type's transition relation.
pub open spec fn dispatch_trace<A, M>(states: Seq<A>, messages: Seq<M>) -> bool where A: Actor<
    M,
> {
    &&& states.len() == messages.len() + 1
    &&& (forall|j: int|
        0 <= j < messages.len() ==> A::dispatch_rel(
            #[trigger] states[j],
            states[j + 1],
            #[trigger] messages[j],
        ))
}

} // verus!

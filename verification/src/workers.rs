//! Two small concrete actors. The recorder appends everything it is
//! given to a list; the counter counts messages and fails on a poison
//! word, which is how a supervised child's crash is exercised.

use vstd::prelude::*;

use crate::actor::Actor;
use crate::actor::DispatchError;
use crate::supervision::ActorFactory;

verus! {

/// Appends every received message to a list and remembers how many times
/// its teardown hook ran.
pub struct RecorderActor<M> {
    pub log: Vec<M>,
    pub close_runs: usize,
}

impl<M> RecorderActor<M> {
    /// A fresh recorder: nothing observed, never closed.
    pub fn new() -> (actor: RecorderActor<M>)
        ensures
            actor.wf(),
            actor.delivered() == Seq::<M>::empty(),
            !actor.closed(),
            actor.close_runs == 0,
    {
        RecorderActor { log: Vec::new(), close_runs: 0 }
    }
}

impl<M> Actor<M> for RecorderActor<M> {
    open spec fn wf(&self) -> bool {
        true
    }

    open spec fn delivered(&self) -> Seq<M> {
        self.log@
    }

    open spec fn closed(&self) -> bool {
        self.close_runs > 0
    }

    open spec fn fails_on(message: M) -> bool {
        false
    }

    open spec fn dispatch_rel(pre: Self, post: Self, message: M) -> bool {
        post.log@ == pre.log@.push(message) && post.close_runs == pre.close_runs
    }

    open spec fn close_rel(pre: Self, post: Self) -> bool {
        post.log@ == pre.log@
    }

    fn route_message(&mut self, message: M) -> (outcome: Result<(), DispatchError>) {
        self.log.push(message);
        Ok(())
    }

    fn get_actor_name(&self) -> &str {
        "recorder"
    }

    fn close(&mut self) {
        self.close_runs = self.close_runs + 1;
    }
}

/// Counts the string messages it handles, and fails on the poison word —
/// the crash a supervisor recovers from by replacing the instance.
pub struct CounterActor {
    pub handled: Vec<String>,
    pub close_runs: usize,
}

impl CounterActor {
    /// A fresh counter: zero handled, never closed.
    pub fn new() -> (actor: CounterActor)
        ensures
            actor.wf(),
            actor.delivered() == Seq::<String>::empty(),
            !actor.closed(),
            actor.close_runs == 0,
    {
        CounterActor { handled: Vec::new(), close_runs: 0 }
    }

    /// How many messages this instance has handled.
    pub fn count(&self) -> (count: usize)
        ensures
            count == self.delivered().len(),
    {
        self.handled.len()
    }
}

impl Actor<String> for CounterActor {
    open spec fn wf(&self) -> bool {
        true
    }

    open spec fn delivered(&self) -> Seq<String> {
        self.handled@
    }

    open spec fn closed(&self) -> bool {
        self.close_runs > 0
    }

    open spec fn fails_on(message: String) -> bool {
        message@ == "boom"@
    }

    open spec fn dispatch_rel(pre: Self, post: Self, message: String) -> bool {
        post.handled@ == pre.handled@.push(message) && post.close_runs == pre.close_runs
    }

    open spec fn close_rel(pre: Self, post: Self) -> bool {
        post.handled@ == pre.handled@
    }

    fn route_message(&mut self, message: String) -> (outcome: Result<(), DispatchError>) {
        let poison = String::from_str("boom");
        if message == poison {
            Err(DispatchError)
        } else {
            self.handled.push(message);
            Ok(())
        }
    }

    fn get_actor_name(&self) -> &str {
        "counter"
    }

    fn close(&mut self) {
        self.close_runs = self.close_runs + 1;
    }
}

/// Start factory for `RecorderActor`: every start is a fresh recorder.
pub struct RecorderFactory;

impl<M> ActorFactory<RecorderActor<M>, M> for RecorderFactory {
    fn start(&self) -> (actor: RecorderActor<M>) {
        RecorderActor::new()
    }
}

/// Start factory for `CounterActor`: every start is a fresh counter.
pub struct CounterFactory;

impl ActorFactory<CounterActor, String> for CounterFactory {
    fn start(&self) -> (actor: CounterActor) {
        CounterActor::new()
    }
}

} // verus!

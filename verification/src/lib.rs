//! An in-process actor runtime: isolated units of state driven through
//! ordered mailboxes, with a shutdown protocol that tears an actor down
//! exactly once, and supervision that restarts a child whose message
//! handling fails.

use vstd::prelude::*;

mod actor;
mod cell;
mod mailbox;
mod router;
mod supervision;
mod workers;

pub use actor::Actor;
pub use actor::dispatch_trace;
pub use cell::ActorCell;
pub use cell::actor_of;
pub use cell::lemma_actor_observation;
pub use cell::lemma_at_most_one_close;
pub use cell::lemma_closed_means_drained;
pub use cell::lemma_fifo;
pub use cell::lemma_shutdown_safety;
pub use mailbox::Mailbox;
pub use router::Router;
pub use router::RouterPhase;
pub use router::StepOutcome;
pub use router::bump_empty_tries;
pub use router::route_wrapper;
pub use supervision::ActorFactory;
pub use supervision::ChildKind;
pub use supervision::ChildSpec;
pub use supervision::RestartPolicy;
pub use supervision::RouteOutcome;
pub use supervision::ShutdownPolicy;
pub use supervision::Supervisor;
pub use supervision::lemma_trace_preserves_unaddressed;
pub use supervision::lemma_trace_restart_scenario;
pub use supervision::lemma_trace_unknown_keys;
pub use actor::DispatchError;
pub use actor::SendError;
pub use workers::CounterActor;
pub use workers::CounterFactory;
pub use workers::RecorderActor;
pub use workers::RecorderFactory;

verus! {

/// The shutdown eligibility rule: an actor may be closed exactly when its
/// mailbox holds no queued message and no external handle survives (a
/// handle count of one stands for the router's own bookkeeping reference).
pub open spec fn spec_shutdown_eligible(queue_depth: nat, handle_count: nat) -> bool {
    queue_depth == 0 && handle_count <= 1
}

/// Decides shutdown eligibility from a queue-depth and handle-count snapshot.
pub fn shutdown_eligible(queue_depth: usize, handle_count: usize) -> (eligible: bool)
    ensures
        eligible == spec_shutdown_eligible(queue_depth as nat, handle_count as nat),
{
    queue_depth == 0 && handle_count <= 1
}

} // verus!

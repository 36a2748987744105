use aktor::Actor;
use aktor::Mailbox;
use aktor::RecorderActor;
use aktor::Router;
use aktor::RouterPhase;
use aktor::SendError;
use aktor::StepOutcome;
use aktor::actor_of;
use aktor::bump_empty_tries;
use aktor::route_wrapper;
use aktor::shutdown_eligible;

#[test]
fn test_aktor() {
    let logger: RecorderActor<String> = RecorderActor::new();
    let mut log_actor = actor_of(logger);

    assert!(log_actor.send("info log".to_string()).is_ok());
    assert!(log_actor.send("error!!".to_string()).is_ok());
    assert!(log_actor.pump().is_ok());

    let actor = log_actor.borrow_actor().unwrap();
    assert_eq!(actor.log, vec!["info log".to_string(), "error!!".to_string()]);
}

#[test]
fn shutdown_eligible_rule() {
    assert!(shutdown_eligible(0, 0));
    assert!(shutdown_eligible(0, 1));
    assert!(!shutdown_eligible(0, 2));
    assert!(!shutdown_eligible(1, 1));
    assert!(!shutdown_eligible(5, 3));
}

#[test]
fn empty_tries_counter_is_bounded() {
    assert_eq!(bump_empty_tries(0), 1);
    assert_eq!(bump_empty_tries(1), 2);
    assert_eq!(bump_empty_tries(90), 91);
    assert_eq!(bump_empty_tries(91), 1);
    assert_eq!(bump_empty_tries(usize::MAX), 1);
}

#[test]
fn mailbox_is_fifo_and_disconnects() {
    let mut mailbox: Mailbox<u32> = Mailbox::new();
    assert_eq!(mailbox.handle_count(), 2);
    assert!(mailbox.send(10).is_ok());
    assert!(mailbox.send(20).is_ok());
    assert_eq!(mailbox.queue_depth(), 2);
    assert_eq!(mailbox.try_recv(), Some(10));
    assert_eq!(mailbox.try_recv(), Some(20));
    assert_eq!(mailbox.try_recv(), None);
    assert_eq!(mailbox.queue_depth(), 0);
    mailbox.close();
    assert_eq!(mailbox.send(30), Err(SendError::Disconnected));
}

#[test]
fn router_drains_and_closes() {
    let recorder: RecorderActor<u32> = RecorderActor::new();
    let mut router = Router::new(recorder);
    let mut mailbox: Mailbox<u32> = Mailbox::new();
    assert!(mailbox.send(1).is_ok());
    assert!(mailbox.send(2).is_ok());
    mailbox.release_handle();
    assert!(route_wrapper(&mut router, &mut mailbox).is_ok());
    assert_eq!(mailbox.queue_depth(), 0);
    assert_eq!(mailbox.send(3), Err(SendError::Disconnected));
    assert!(matches!(router.current_phase(), RouterPhase::Closed));
    let actor = router.borrow_actor().unwrap();
    assert_eq!(actor.log, vec![1, 2]);
    assert_eq!(actor.close_runs, 1);
}

#[test]
fn fifo_delivery_order() {
    let recorder: RecorderActor<u64> = RecorderActor::new();
    let mut cell = actor_of(recorder);
    cell.clone_ref();
    for value in 1..=5u64 {
        assert!(cell.send(value).is_ok());
    }
    cell.drop_ref();
    assert!(cell.pump().is_ok());
    let actor = cell.borrow_actor().unwrap();
    assert_eq!(actor.log, vec![1, 2, 3, 4, 5]);
}

#[test]
fn no_close_while_handles_survive() {
    let recorder: RecorderActor<u64> = RecorderActor::new();
    let mut cell = actor_of(recorder);
    assert!(cell.send(7).is_ok());
    assert!(cell.pump().is_ok());
    assert!(matches!(cell.current_phase(), RouterPhase::Running));
    assert_eq!(cell.borrow_actor().unwrap().close_runs, 0);
    assert_eq!(cell.borrow_actor().unwrap().log, vec![7]);
}

#[test]
fn drain_before_shutdown() {
    let recorder: RecorderActor<u64> = RecorderActor::new();
    let mut cell = actor_of(recorder);
    assert!(cell.send(1).is_ok());
    assert!(cell.send(2).is_ok());
    assert!(cell.send(3).is_ok());
    cell.drop_ref();
    assert_eq!(cell.queue_depth(), 3);
    assert!(cell.pump().is_ok());
    let actor = cell.borrow_actor().unwrap();
    assert_eq!(actor.log, vec![1, 2, 3]);
    assert_eq!(actor.close_runs, 1);
    assert!(matches!(cell.current_phase(), RouterPhase::Closed));
}

#[test]
fn close_runs_exactly_once() {
    let recorder: RecorderActor<u64> = RecorderActor::new();
    let mut cell = actor_of(recorder);
    assert!(cell.send(4).is_ok());
    cell.drop_ref();
    assert!(cell.pump().is_ok());
    assert_eq!(cell.borrow_actor().unwrap().close_runs, 1);
    assert!(cell.pump().is_ok());
    assert!(cell.pump().is_ok());
    assert_eq!(cell.borrow_actor().unwrap().close_runs, 1);
    assert_eq!(cell.send(5), Err(SendError::Disconnected));
}

#[test]
fn no_pending_messages_after_close() {
    let recorder: RecorderActor<u64> = RecorderActor::new();
    let mut cell = actor_of(recorder);
    for value in 0..10u64 {
        assert!(cell.send(value).is_ok());
    }
    cell.drop_ref();
    assert!(cell.pump().is_ok());
    assert!(matches!(cell.current_phase(), RouterPhase::Closed));
    assert_eq!(cell.queue_depth(), 0);
    assert!(cell.send(11).is_err());
    assert_eq!(cell.queue_depth(), 0);
}

#[test]
fn draining_is_observable_step_by_step() {
    let recorder: RecorderActor<u64> = RecorderActor::new();
    let mut cell = actor_of(recorder);
    assert!(cell.send(1).is_ok());
    assert!(cell.send(2).is_ok());
    cell.drop_ref();
    assert!(matches!(cell.pump_one(), StepOutcome::Delivered));
    assert!(matches!(cell.current_phase(), RouterPhase::Draining));
    assert!(matches!(cell.pump_one(), StepOutcome::Closed));
    assert!(matches!(cell.current_phase(), RouterPhase::Closed));
    assert_eq!(cell.borrow_actor().unwrap().log, vec![1, 2]);
}

#[test]
fn idle_poll_keeps_running() {
    let recorder: RecorderActor<u64> = RecorderActor::new();
    let mut cell = actor_of(recorder);
    assert!(matches!(cell.pump_one(), StepOutcome::Idle));
    assert!(matches!(cell.pump_one(), StepOutcome::Idle));
    assert!(matches!(cell.current_phase(), RouterPhase::Running));
}

#[test]
fn cloned_refs_keep_actor_alive() {
    let recorder: RecorderActor<u64> = RecorderActor::new();
    let mut cell = actor_of(recorder);
    cell.clone_ref();
    cell.clone_ref();
    assert_eq!(cell.handle_count(), 4);
    cell.drop_ref();
    assert!(cell.pump().is_ok());
    assert!(matches!(cell.current_phase(), RouterPhase::Running));
    cell.drop_ref();
    cell.drop_ref();
    assert_eq!(cell.handle_count(), 1);
    assert!(cell.pump().is_ok());
    assert!(matches!(cell.current_phase(), RouterPhase::Closed));
}

#[test]
fn recorder_reports_its_name() {
    let recorder: RecorderActor<u64> = RecorderActor::new();
    assert_eq!(recorder.get_actor_name(), "recorder");
}

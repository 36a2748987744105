use aktor::Actor;
use aktor::ChildKind;
use aktor::ChildSpec;
use aktor::CounterActor;
use aktor::CounterFactory;
use aktor::DispatchError;
use aktor::RecorderActor;
use aktor::RecorderFactory;
use aktor::RestartPolicy;
use aktor::RouteOutcome;
use aktor::ShutdownPolicy;
use aktor::Supervisor;
use aktor::actor_of;

fn one_child(key: &str) -> Supervisor<CounterActor, String, CounterFactory> {
    let spec_w = ChildSpec::new(
        key.to_string(),
        CounterFactory,
        RestartPolicy::Persistent,
        ShutdownPolicy::Eventually,
        ChildKind::Worker,
    );
    Supervisor::new(vec![spec_w])
}

fn two_children() -> Supervisor<CounterActor, String, CounterFactory> {
    let spec_w = ChildSpec::new(
        "w".to_string(),
        CounterFactory,
        RestartPolicy::Persistent,
        ShutdownPolicy::Eventually,
        ChildKind::Worker,
    );
    let spec_s = ChildSpec::new(
        "s".to_string(),
        CounterFactory,
        RestartPolicy::Persistent,
        ShutdownPolicy::Eventually,
        ChildKind::Worker,
    );
    Supervisor::new(vec![spec_w, spec_s])
}

#[test]
fn counter_fails_on_poison_word() {
    let mut counter = CounterActor::new();
    assert_eq!(counter.route_message("ping".to_string()), Ok(()));
    assert_eq!(counter.route_message("boom".to_string()), Err(DispatchError));
    assert_eq!(counter.count(), 1);
    assert_eq!(counter.get_actor_name(), "counter");
}

#[test]
fn unknown_key_is_a_no_op() {
    let mut sup = two_children();
    let known = "w".to_string();
    assert!(matches!(
        sup.route_to_child(&known, "ping".to_string()),
        RouteOutcome::Delivered
    ));
    let missing = "nobody".to_string();
    assert!(matches!(
        sup.route_to_child(&missing, "ping".to_string()),
        RouteOutcome::UnknownKey
    ));
    assert_eq!(sup.borrow_child_actor(&known).unwrap().count(), 1);
    assert_eq!(sup.borrow_child_actor(&"s".to_string()).unwrap().count(), 0);
    assert!(sup.borrow_child_actor(&missing).is_none());
}

#[test]
fn failed_child_is_replaced_fresh() {
    let mut sup = one_child("w");
    let key = "w".to_string();
    assert!(matches!(
        sup.route_to_child(&key, "ping".to_string()),
        RouteOutcome::Delivered
    ));
    assert!(matches!(
        sup.route_to_child(&key, "pong".to_string()),
        RouteOutcome::Delivered
    ));
    assert_eq!(sup.borrow_child_actor(&key).unwrap().count(), 2);
    assert!(matches!(
        sup.route_to_child(&key, "boom".to_string()),
        RouteOutcome::Restarted
    ));
    assert_eq!(sup.borrow_child_actor(&key).unwrap().count(), 0);
    assert!(matches!(
        sup.route_to_child(&key, "ping".to_string()),
        RouteOutcome::Delivered
    ));
    assert_eq!(sup.borrow_child_actor(&key).unwrap().count(), 1);
}

#[test]
fn siblings_survive_a_restart() {
    let mut sup = two_children();
    let key_w = "w".to_string();
    let key_s = "s".to_string();
    assert!(matches!(
        sup.route_to_child(&key_s, "one".to_string()),
        RouteOutcome::Delivered
    ));
    assert!(matches!(
        sup.route_to_child(&key_s, "two".to_string()),
        RouteOutcome::Delivered
    ));
    assert!(matches!(
        sup.route_to_child(&key_w, "boom".to_string()),
        RouteOutcome::Restarted
    ));
    let sibling = sup.borrow_child_actor(&key_s).unwrap();
    assert_eq!(sibling.count(), 2);
    assert_eq!(
        sibling.handled,
        vec!["one".to_string(), "two".to_string()]
    );
    assert!(matches!(
        sup.route_to_child(&key_s, "three".to_string()),
        RouteOutcome::Delivered
    ));
    assert_eq!(sup.borrow_child_actor(&key_s).unwrap().count(), 3);
}

#[test]
fn supervisor_is_itself_an_actor() {
    let sup = one_child("w");
    let mut cell = actor_of(sup);
    assert!(cell.send(("w".to_string(), "ping".to_string())).is_ok());
    assert!(cell.send(("w".to_string(), "boom".to_string())).is_ok());
    assert!(cell.send(("w".to_string(), "pong".to_string())).is_ok());
    assert!(cell.send(("x".to_string(), "lost".to_string())).is_ok());
    cell.drop_ref();
    assert!(cell.pump().is_ok());
    let sup_after = cell.borrow_actor().unwrap();
    let child = sup_after.borrow_child_actor(&"w".to_string()).unwrap();
    assert_eq!(child.handled, vec!["pong".to_string()]);
    assert_eq!(sup_after.get_actor_name(), "supervisor");
}

#[test]
fn supervisor_of_recorders_never_restarts() {
    let spec_a = ChildSpec::new(
        "a".to_string(),
        RecorderFactory,
        RestartPolicy::Temporary,
        ShutdownPolicy::Immediately,
        ChildKind::Worker,
    );
    let mut sup: Supervisor<RecorderActor<u64>, u64, RecorderFactory> =
        Supervisor::new(vec![spec_a]);
    let key = "a".to_string();
    for value in [3u64, 1, 4] {
        assert!(matches!(
            sup.route_to_child(&key, value),
            RouteOutcome::Delivered
        ));
    }
    assert_eq!(sup.borrow_child_actor(&key).unwrap().log, vec![3, 1, 4]);
}

#[test]
fn supervisor_scenario_end_to_end() {
    let mut sup = one_child("w");
    let key = "w".to_string();
    assert!(matches!(
        sup.route_to_child(&key, "boom".to_string()),
        RouteOutcome::Restarted
    ));
    assert!(matches!(
        sup.route_to_child(&key, "ping".to_string()),
        RouteOutcome::Delivered
    ));
    let child = sup.borrow_child_actor(&key).unwrap();
    assert_eq!(child.count(), 1);
    assert_eq!(child.handled, vec!["ping".to_string()]);
    assert_eq!(child.close_runs, 0);
}

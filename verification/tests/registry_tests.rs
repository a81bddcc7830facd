use glin_client::api::ProviderTaskInfo;
use glin_client::worker::registry::Dispatch;
use glin_client::worker::ActiveTasks;

fn task(id: u128, name: &str) -> ProviderTaskInfo {
    ProviderTaskInfo {
        id,
        name: name.to_string(),
        task_status: "assigned".to_string(),
        batch_start: 0,
        batch_end: 100,
        assignment_status: "active".to_string(),
    }
}

fn ids(started: &[Dispatch]) -> Vec<u128> {
    started.iter().map(|d| d.task_id).collect()
}

#[test]
fn new_registry_is_empty() {
    let r = ActiveTasks::new();
    assert_eq!(r.len(), 0);
    assert!(r.is_empty());
    assert!(!r.contains(7));
    assert_eq!(r.snapshot(), Vec::<u128>::new());
}

#[test]
fn first_registration_wins() {
    let mut r = ActiveTasks::new();
    assert!(r.try_register(7));
    assert!(!r.try_register(7));
    assert!(r.try_register(8));
    assert_eq!(r.snapshot(), vec![7, 8]);
    assert_eq!(r.len(), 2);
    assert!(r.contains(7));
    assert!(r.contains(8));
    assert!(!r.contains(9));
}

#[test]
fn completion_removes_exactly_once() {
    let mut r = ActiveTasks::new();
    r.try_register(1);
    r.try_register(2);
    r.try_register(3);
    assert!(r.complete(2));
    assert_eq!(r.snapshot(), vec![1, 3]);
    assert!(!r.contains(2));
    assert!(!r.complete(2));
    assert_eq!(r.snapshot(), vec![1, 3]);
    assert!(!r.complete(9));
    assert_eq!(r.len(), 2);
    assert!(r.complete(1));
    assert!(r.complete(3));
    assert!(r.is_empty());
}

#[test]
fn a_completed_task_can_be_dispatched_again() {
    let mut r = ActiveTasks::new();
    assert!(r.try_register(5));
    assert!(r.complete(5));
    assert!(r.try_register(5));
    assert_eq!(r.snapshot(), vec![5]);
}

#[test]
fn dispatch_passes_over_tasks_in_flight() {
    let mut r = ActiveTasks::new();
    r.try_register(1);
    let started = r.dispatch(&vec![task(1, "a"), task(2, "b"), task(3, "c")]);
    assert_eq!(ids(&started), vec![2, 3]);
    assert_eq!(started[0].task_name, "b");
    assert_eq!(started[1].task_name, "c");
    assert_eq!(r.snapshot(), vec![1, 2, 3]);
}

#[test]
fn dispatch_takes_the_first_of_repeated_tasks_in_one_poll() {
    let mut r = ActiveTasks::new();
    let started = r.dispatch(&vec![task(4, "first"), task(5, "x"), task(4, "second")]);
    assert_eq!(ids(&started), vec![4, 5]);
    assert_eq!(started[0].task_name, "first");
    assert_eq!(r.snapshot(), vec![4, 5]);
}

#[test]
fn repeated_polls_dispatch_nothing_until_the_task_ends() {
    let mut r = ActiveTasks::new();
    let poll = vec![task(10, "a"), task(11, "b")];
    assert_eq!(ids(&r.dispatch(&poll)), vec![10, 11]);
    assert!(r.dispatch(&poll).is_empty());
    assert!(r.dispatch(&poll).is_empty());
    assert_eq!(r.snapshot(), vec![10, 11]);
    assert!(r.complete(10));
    assert_eq!(ids(&r.dispatch(&poll)), vec![10]);
    assert_eq!(r.snapshot(), vec![11, 10]);
}

#[test]
fn dispatch_of_an_empty_poll_changes_nothing() {
    let mut r = ActiveTasks::new();
    r.try_register(1);
    assert!(r.dispatch(&Vec::new()).is_empty());
    assert_eq!(r.snapshot(), vec![1]);
}

#[test]
fn a_snapshot_is_not_touched_by_later_completions() {
    let mut r = ActiveTasks::new();
    r.try_register(1);
    r.try_register(2);
    let snapshot = r.snapshot();
    r.complete(1);
    r.complete(2);
    assert_eq!(snapshot, vec![1, 2]);
    assert!(r.is_empty());
}

#[test]
fn registry_never_holds_an_identifier_twice() {
    let mut r = ActiveTasks::new();
    let polls = vec![
        vec![task(1, "a"), task(2, "b"), task(1, "a")],
        vec![task(2, "b"), task(3, "c")],
        vec![task(3, "c"), task(3, "c"), task(1, "a")],
    ];
    for poll in &polls {
        r.dispatch(poll);
        let mut seen = r.snapshot();
        seen.sort();
        seen.dedup();
        assert_eq!(seen.len(), r.len());
    }
    assert_eq!(r.snapshot(), vec![1, 2, 3]);
}

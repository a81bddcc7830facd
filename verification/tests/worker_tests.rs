use glin_client::api::ProviderTaskInfo;
use glin_client::config::Config;
use glin_client::error::ClientError;
use glin_client::time::Span;
use glin_client::worker::registry::Dispatch;
use glin_client::worker::{ActiveTasks, DispatchLoop, ExitReason, LoopAction, LoopEvent, LoopState, Worker};

fn task(id: u128, name: &str) -> ProviderTaskInfo {
    ProviderTaskInfo {
        id,
        name: name.to_string(),
        task_status: "assigned".to_string(),
        batch_start: 0,
        batch_end: 10,
        assignment_status: "active".to_string(),
    }
}

fn registered() -> Config {
    let mut config = Config::default();
    config.provider.id = Some(42);
    config.provider.api_key = Some("key".to_string());
    config.provider.jwt_token = Some("jwt".to_string());
    config.backend.url = "http://backend:3000/".to_string();
    config
}

fn begun() -> DispatchLoop {
    let worker = Worker::new(registered()).unwrap();
    let (dispatch_loop, action) = worker.start().unwrap();
    assert!(matches!(action, LoopAction::CheckShutdown));
    dispatch_loop
}

fn ids(started: &[Dispatch]) -> Vec<u128> {
    started.iter().map(|d| d.task_id).collect()
}

/// Runs one cycle up to the poll and returns what the poll dispatches.
fn cycle(l: &mut DispatchLoop, registry: &mut ActiveTasks, poll: Vec<ProviderTaskInfo>) -> Vec<u128> {
    assert_eq!(l.state(), LoopState::Idle);
    assert!(matches!(l.step(registry, LoopEvent::Shutdown(false)), LoopAction::SendHeartbeat(_)));
    assert!(matches!(l.step(registry, LoopEvent::HeartbeatSent(Ok(()))), LoopAction::FetchTasks));
    let started = match l.step(registry, LoopEvent::Tasks(Ok(poll))) {
        LoopAction::Spawn(started) => {
            assert_eq!(l.state(), LoopState::Dispatching);
            assert!(matches!(l.step(registry, LoopEvent::Spawned), LoopAction::Sleep { secs: 10 }));
            ids(&started)
        }
        LoopAction::Sleep { secs } => {
            assert_eq!(secs, 10);
            Vec::new()
        }
        other => panic!("unexpected {:?}", other),
    };
    assert_eq!(l.state(), LoopState::Sleeping);
    assert!(matches!(l.step(registry, LoopEvent::Woke), LoopAction::CheckShutdown));
    started
}

#[test]
fn worker_takes_address_and_token_from_the_settings() {
    let worker = Worker::new(registered()).unwrap();
    assert_eq!(worker.backend().base_url(), "http://backend:3000");
    assert_eq!(worker.backend().token(), Some("jwt"));
    assert_eq!(worker.settings().provider.id, Some(42));
    let plain = Worker::new(Config::default()).unwrap();
    assert_eq!(plain.backend().token(), None);
    assert_eq!(plain.backend().base_url(), "http://localhost:3000");
}

#[test]
fn unregistered_worker_does_not_start() {
    let worker = Worker::new(Config::default()).unwrap();
    match worker.start() {
        Err(ClientError::NotRegistered) => {}
        _ => panic!("an unregistered worker must not start"),
    }
}

#[test]
fn loop_starts_idle_for_its_provider() {
    let l = begun();
    assert_eq!(l.state(), LoopState::Idle);
    assert_eq!(l.provider_id(), 42);
}

#[test]
fn repeated_task_identifiers_are_dispatched_once() {
    let mut l = begun();
    let mut registry = ActiveTasks::new();
    assert_eq!(cycle(&mut l, &mut registry, vec![task(1, "a"), task(2, "b")]), vec![1, 2]);
    assert_eq!(cycle(&mut l, &mut registry, vec![task(1, "a"), task(2, "b")]), Vec::<u128>::new());
    assert_eq!(cycle(&mut l, &mut registry, vec![task(2, "b"), task(3, "c")]), vec![3]);
    assert_eq!(registry.snapshot(), vec![1, 2, 3]);
    registry.complete(2);
    assert_eq!(cycle(&mut l, &mut registry, vec![task(1, "a"), task(2, "b")]), vec![2]);
    assert_eq!(registry.snapshot(), vec![1, 3, 2]);
}

#[test]
fn heartbeat_shows_the_registry_at_send_time() {
    let mut l = begun();
    let mut registry = ActiveTasks::new();
    registry.try_register(5);
    registry.try_register(6);
    let snapshot = match l.step(&mut registry, LoopEvent::Shutdown(false)) {
        LoopAction::SendHeartbeat(snapshot) => snapshot,
        other => panic!("unexpected {:?}", other),
    };
    registry.complete(5);
    registry.complete(6);
    assert_eq!(snapshot.provider_id, 42);
    assert_eq!(snapshot.current_tasks, vec![5, 6]);
    assert!(registry.is_empty());
    let later = l.heartbeat(&registry);
    assert!(later.current_tasks.is_empty());
}

#[test]
fn failed_heartbeat_and_failed_poll_do_not_end_the_loop() {
    let mut l = begun();
    let mut registry = ActiveTasks::new();
    l.step(&mut registry, LoopEvent::Shutdown(false));
    let failed = Err(ClientError::Api("Heartbeat failed (500): down".to_string()));
    assert!(matches!(l.step(&mut registry, LoopEvent::HeartbeatSent(failed)), LoopAction::FetchTasks));
    assert_eq!(l.state(), LoopState::Polling);
    let failed = Err(ClientError::Http("connection refused".to_string()));
    assert!(matches!(l.step(&mut registry, LoopEvent::Tasks(failed)), LoopAction::Sleep { secs: 10 }));
    assert_eq!(l.state(), LoopState::Sleeping);
    assert!(matches!(l.step(&mut registry, LoopEvent::Woke), LoopAction::CheckShutdown));
    assert_eq!(l.state(), LoopState::Idle);
    assert!(registry.is_empty());
}

#[test]
fn loop_sleeps_for_the_poll_interval() {
    let mut config = registered();
    config.worker.task_poll_interval_secs = 3;
    config.worker.heartbeat_interval_secs = 99;
    let (mut l, _) = Worker::new(config).unwrap().start().unwrap();
    let mut registry = ActiveTasks::new();
    l.step(&mut registry, LoopEvent::Shutdown(false));
    l.step(&mut registry, LoopEvent::HeartbeatSent(Ok(())));
    assert!(matches!(
        l.step(&mut registry, LoopEvent::Tasks(Ok(Vec::new()))),
        LoopAction::Sleep { secs: 3 }
    ));
}

#[test]
fn shutdown_with_two_tasks_waits_for_both() {
    let mut l = begun();
    let mut registry = ActiveTasks::new();
    registry.try_register(1);
    registry.try_register(2);
    assert!(matches!(
        l.step(&mut registry, LoopEvent::Shutdown(true)),
        LoopAction::DrainWait { secs: 0 }
    ));
    assert_eq!(l.state(), LoopState::Draining);
    let at = |secs| LoopEvent::DrainElapsed(Span { secs, nanos: 0 });
    assert!(matches!(l.step(&mut registry, at(0)), LoopAction::DrainWait { secs: 2 }));
    registry.complete(1);
    assert!(matches!(l.step(&mut registry, at(2)), LoopAction::DrainWait { secs: 2 }));
    registry.complete(2);
    assert!(matches!(l.step(&mut registry, at(4)), LoopAction::Exit(ExitReason::Drained)));
    assert_eq!(l.state(), LoopState::Terminated);
}

#[test]
fn shutdown_with_two_stuck_tasks_ends_at_the_timeout() {
    let mut l = begun();
    let mut registry = ActiveTasks::new();
    registry.try_register(1);
    registry.try_register(2);
    l.step(&mut registry, LoopEvent::Shutdown(true));
    let mut elapsed = 0;
    let reason = loop {
        match l.step(&mut registry, LoopEvent::DrainElapsed(Span { secs: elapsed, nanos: 1 })) {
            LoopAction::DrainWait { secs } => elapsed += secs,
            LoopAction::Exit(reason) => break reason,
            other => panic!("unexpected {:?}", other),
        }
    };
    assert_eq!(reason, ExitReason::DrainTimedOut { remaining: 2 });
    assert_eq!(elapsed, 30);
    assert_eq!(registry.snapshot(), vec![1, 2]);
}

#[test]
fn shutdown_with_nothing_in_flight_ends_at_once() {
    let mut l = begun();
    let mut registry = ActiveTasks::new();
    l.step(&mut registry, LoopEvent::Shutdown(true));
    assert!(matches!(
        l.step(&mut registry, LoopEvent::DrainElapsed(Span { secs: 0, nanos: 0 })),
        LoopAction::Exit(ExitReason::Drained)
    ));
}

#[test]
fn nothing_is_dispatched_after_shutdown() {
    let mut l = begun();
    let mut registry = ActiveTasks::new();
    registry.try_register(1);
    l.step(&mut registry, LoopEvent::Shutdown(true));
    let action = l.step(&mut registry, LoopEvent::Tasks(Ok(vec![task(9, "late")])));
    assert!(matches!(action, LoopAction::Exit(ExitReason::Unexpected)));
    assert_eq!(l.state(), LoopState::Terminated);
    assert_eq!(registry.snapshot(), vec![1]);
    let action = l.step(&mut registry, LoopEvent::Tasks(Ok(vec![task(9, "late")])));
    assert!(matches!(action, LoopAction::Exit(ExitReason::Unexpected)));
    assert_eq!(registry.snapshot(), vec![1]);
}

#[test]
fn an_event_the_loop_does_not_wait_for_ends_it() {
    let mut l = begun();
    let mut registry = ActiveTasks::new();
    assert!(matches!(l.step(&mut registry, LoopEvent::Woke), LoopAction::Exit(ExitReason::Unexpected)));
    assert_eq!(l.state(), LoopState::Terminated);
}

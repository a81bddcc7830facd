use glin_client::error::ClientError;
use glin_client::worker::training::{Outcome, TrainingMetrics, TrainingResult};
use glin_client::worker::unit::{gradient_report, unit_step, UnitAction, UnitEvent, UnitState};
use glin_client::worker::ActiveTasks;

fn result() -> TrainingResult {
    TrainingResult {
        gradient_cid: "QmGrad".to_string(),
        metrics: TrainingMetrics {
            loss_bits: 0.5f64.to_bits(),
            accuracy_bits: 0.95f64.to_bits(),
            duration_secs: 60,
        },
        logs: vec!["epoch 1".to_string()],
    }
}

/// Drives a unit through `events`; returns the number of reports and of
/// removals from the registry.
fn drive(task_id: u128, registry: &mut ActiveTasks, events: Vec<UnitEvent>) -> (usize, usize, usize) {
    let mut state = UnitState::Pending;
    let (mut trained, mut reported, mut removed) = (0, 0, 0);
    for event in events {
        let (next, action) = unit_step(task_id, 1, state, event);
        state = next;
        match action {
            UnitAction::Train => trained += 1,
            UnitAction::Report(_) => reported += 1,
            UnitAction::Deregister(id) => {
                assert_eq!(id, task_id);
                assert!(registry.complete(id));
                removed += 1;
            }
            UnitAction::Stop => {}
        }
    }
    (trained, reported, removed)
}

#[test]
fn gradient_report_carries_the_result() {
    let report = gradient_report(7, 9, result());
    assert_eq!(report.task_id, 7);
    assert_eq!(report.provider_id, 9);
    assert_eq!(report.gradient_cid, "QmGrad");
    assert_eq!(f64::from_bits(report.metrics.loss_bits), 0.5);
    assert_eq!(f64::from_bits(report.metrics.accuracy_bits), 0.95);
    assert_eq!(report.metrics.training_duration_secs, 60);
    assert_eq!(report.metrics.compression_method, "quantize");
}

#[test]
fn successful_unit_reports_and_leaves_once() {
    let mut registry = ActiveTasks::new();
    registry.try_register(7);
    let counts = drive(
        7,
        &mut registry,
        vec![
            UnitEvent::Scheduled { shutdown: false },
            UnitEvent::Trained(Outcome::Completed(result())),
            UnitEvent::Reported(Ok(())),
            UnitEvent::Reported(Ok(())),
        ],
    );
    assert_eq!(counts, (1, 1, 1));
    assert!(!registry.contains(7));
}

#[test]
fn unit_whose_report_fails_still_leaves_once() {
    let mut registry = ActiveTasks::new();
    registry.try_register(7);
    let counts = drive(
        7,
        &mut registry,
        vec![
            UnitEvent::Scheduled { shutdown: false },
            UnitEvent::Trained(Outcome::Completed(result())),
            UnitEvent::Reported(Err(ClientError::Api("Submit gradient failed".to_string()))),
        ],
    );
    assert_eq!(counts, (1, 1, 1));
    assert!(registry.is_empty());
}

#[test]
fn failed_unit_reports_nothing_and_leaves_once() {
    let mut registry = ActiveTasks::new();
    registry.try_register(7);
    registry.try_register(8);
    let counts = drive(
        7,
        &mut registry,
        vec![
            UnitEvent::Scheduled { shutdown: false },
            UnitEvent::Trained(Outcome::Failed(ClientError::Training("exit 1".to_string()))),
            UnitEvent::Reported(Ok(())),
        ],
    );
    assert_eq!(counts, (1, 0, 1));
    assert_eq!(registry.snapshot(), vec![8]);
}

#[test]
fn aborted_unit_reports_nothing_and_leaves_once() {
    let mut registry = ActiveTasks::new();
    registry.try_register(7);
    let counts = drive(
        7,
        &mut registry,
        vec![UnitEvent::Scheduled { shutdown: false }, UnitEvent::Trained(Outcome::Aborted)],
    );
    assert_eq!(counts, (1, 0, 1));
    assert!(registry.is_empty());
}

#[test]
fn unit_scheduled_after_shutdown_is_skipped() {
    let mut registry = ActiveTasks::new();
    registry.try_register(7);
    let counts = drive(
        7,
        &mut registry,
        vec![
            UnitEvent::Scheduled { shutdown: true },
            UnitEvent::Trained(Outcome::Completed(result())),
        ],
    );
    assert_eq!(counts, (0, 0, 1));
    assert!(registry.is_empty());
}

#[test]
fn unit_steps_name_the_next_state() {
    let (state, action) = unit_step(1, 2, UnitState::Pending, UnitEvent::Scheduled { shutdown: false });
    assert_eq!(state, UnitState::Training);
    assert!(matches!(action, UnitAction::Train));
    let (state, action) = unit_step(1, 2, state, UnitEvent::Trained(Outcome::Completed(result())));
    assert_eq!(state, UnitState::Reporting);
    match action {
        UnitAction::Report(report) => {
            assert_eq!(report.task_id, 1);
            assert_eq!(report.provider_id, 2);
        }
        other => panic!("unexpected {:?}", other),
    }
    let (state, action) = unit_step(1, 2, state, UnitEvent::Reported(Ok(())));
    assert_eq!(state, UnitState::Done);
    assert!(matches!(action, UnitAction::Deregister(1)));
    let (state, action) = unit_step(1, 2, state, UnitEvent::Reported(Ok(())));
    assert_eq!(state, UnitState::Done);
    assert!(matches!(action, UnitAction::Stop));
}

#[test]
fn an_event_out_of_turn_ends_the_unit() {
    let (state, action) = unit_step(1, 2, UnitState::Pending, UnitEvent::Reported(Ok(())));
    assert_eq!(state, UnitState::Done);
    assert!(matches!(action, UnitAction::Deregister(1)));
    let (state, action) =
        unit_step(1, 2, UnitState::Training, UnitEvent::Scheduled { shutdown: false });
    assert_eq!(state, UnitState::Done);
    assert!(matches!(action, UnitAction::Deregister(1)));
}

use glin_client::time::Span;
use glin_client::worker::drain::{drain_step, DrainPolicy, DrainStep};

fn secs(secs: u64) -> Span {
    Span { secs, nanos: 0 }
}

#[test]
fn default_drain_policy_is_thirty_seconds_in_steps_of_two() {
    assert_eq!(DrainPolicy::default(), DrainPolicy { timeout_secs: 30, poll_secs: 2 });
}

#[test]
fn drain_finishes_when_nothing_is_in_flight() {
    let policy = DrainPolicy::default();
    assert_eq!(drain_step(policy, 0, secs(0)), DrainStep::Finished);
    assert_eq!(drain_step(policy, 0, secs(100)), DrainStep::Finished);
}

#[test]
fn drain_waits_while_tasks_run_and_time_is_left() {
    let policy = DrainPolicy::default();
    assert_eq!(drain_step(policy, 2, secs(0)), DrainStep::Wait { secs: 2 });
    assert_eq!(drain_step(policy, 2, secs(29)), DrainStep::Wait { secs: 2 });
    assert_eq!(drain_step(policy, 1, secs(30)), DrainStep::Wait { secs: 2 });
}

#[test]
fn drain_times_out_strictly_after_the_limit() {
    let policy = DrainPolicy::default();
    assert_eq!(
        drain_step(policy, 2, Span { secs: 30, nanos: 1 }),
        DrainStep::TimedOut { remaining: 2 }
    );
    assert_eq!(drain_step(policy, 1, secs(31)), DrainStep::TimedOut { remaining: 1 });
}

#[test]
fn drain_with_two_tasks_ends_when_both_finish() {
    let policy = DrainPolicy::default();
    let looks = [(2usize, 0u64), (2, 2), (1, 4), (1, 6), (0, 8), (0, 10)];
    let mut taken = 0;
    let mut end = None;
    for (active, at) in looks {
        taken += 1;
        match drain_step(policy, active, secs(at)) {
            DrainStep::Wait { secs } => assert_eq!(secs, 2),
            other => {
                end = Some(other);
                break;
            }
        }
    }
    assert_eq!(taken, 5);
    assert_eq!(end, Some(DrainStep::Finished));
}

#[test]
fn drain_with_two_stuck_tasks_ends_at_the_timeout() {
    let policy = DrainPolicy { timeout_secs: 5, poll_secs: 2 };
    let mut at = 0;
    let mut taken = 0;
    let end = loop {
        taken += 1;
        match drain_step(policy, 2, secs(at)) {
            DrainStep::Wait { secs } => at += secs,
            other => break other,
        }
    };
    assert_eq!(end, DrainStep::TimedOut { remaining: 2 });
    assert_eq!(at, 6);
    assert_eq!(taken, 4);
}

#[test]
fn span_compares_with_nanosecond_precision() {
    assert!(!Span { secs: 3, nanos: 0 }.exceeds(3));
    assert!(Span { secs: 3, nanos: 1 }.exceeds(3));
    assert!(Span { secs: 4, nanos: 0 }.exceeds(3));
    assert!(!Span { secs: 2, nanos: 999_999_999 }.exceeds(3));
    assert!(!Span { secs: u64::MAX, nanos: 999_999_999 }.exceeds(u64::MAX as u128 + 1));
}

//! Draining on shutdown: waiting for the tasks in flight, but not for ever.

use crate::time::{longer_than, Span};
use vstd::prelude::*;

verus! {

/// How long a drain waits and how often it looks.
#[derive(Clone, Copy, Debug, PartialEq, Eq, Structural)]
pub struct DrainPolicy {
    /// The drain gives up once more than this many seconds have passed.
    pub timeout_secs: u64,
    /// Pause between two looks at the registry, in seconds.
    pub poll_secs: u64,
}

impl Default for DrainPolicy {
    /// Thirty seconds in all, a look every two seconds.
    fn default() -> (r: Self)
        ensures
            r == (DrainPolicy { timeout_secs: 30, poll_secs: 2 }),
    {
        DrainPolicy { timeout_secs: 30, poll_secs: 2 }
    }
}

/// What a drain does after a look at the registry.
#[derive(Clone, Copy, Debug, PartialEq, Eq, Structural)]
pub enum DrainStep {
    /// No task is in flight: terminate cleanly.
    Finished,
    /// The timeout has passed: terminate although `remaining` tasks are
    /// still in flight. This is reported, not an error.
    TimedOut { remaining: usize },
    /// Tasks are in flight and time is left: look again in `secs` seconds.
    Wait { secs: u64 },
}

/// What a drain does when it sees `active` tasks in flight `elapsed` after
/// it began.
pub open spec fn drain_step_of(policy: DrainPolicy, active: usize, elapsed: Span) -> DrainStep {
    if active == 0 {
        DrainStep::Finished
    } else if longer_than(elapsed, policy.timeout_secs as int) {
        DrainStep::TimedOut { remaining: active }
    } else {
        DrainStep::Wait { secs: policy.poll_secs }
    }
}

/// Decides what a drain does after a look at the registry: `active` is the
/// number of tasks in flight, `elapsed` the time since the drain began.
pub fn drain_step(policy: DrainPolicy, active: usize, elapsed: Span) -> (step: DrainStep)
    ensures
        step == drain_step_of(policy, active, elapsed),
{
    if active == 0 {
        DrainStep::Finished
    } else if elapsed.exceeds(policy.timeout_secs as u128) {
        DrainStep::TimedOut { remaining: active }
    } else {
        DrainStep::Wait { secs: policy.poll_secs }
    }
}

/// One look of a drain at the registry.
pub struct Look {
    /// Number of tasks in flight.
    pub active: usize,
    /// Time since the drain began.
    pub elapsed: Span,
}

/// The number of looks a drain takes at `looks` and the step that ends it;
/// `None` where `looks` run out first.
pub open spec fn drain(policy: DrainPolicy, looks: Seq<Look>) -> (nat, Option<DrainStep>)
    decreases looks.len(),
{
    if looks.len() == 0 {
        (0, None)
    } else {
        match drain_step_of(policy, looks[0].active, looks[0].elapsed) {
            DrainStep::Wait { .. } => {
                let rest = drain(policy, looks.drop_first());
                (rest.0 + 1, rest.1)
            },
            end => (1, Some(end)),
        }
    }
}

/// A drain ends with the first look that finds no task in flight or the
/// timeout passed, whichever comes first: cleanly in the first case, with
/// the number of tasks left in the second.
pub proof fn lemma_drain_ends_at_first(policy: DrainPolicy, looks: Seq<Look>, k: nat)
    requires
        k < looks.len(),
        forall|j: int|
            0 <= j < k ==> (#[trigger] looks[j]).active > 0 && !longer_than(
                looks[j].elapsed,
                policy.timeout_secs as int,
            ),
        looks[k as int].active == 0 || longer_than(
            looks[k as int].elapsed,
            policy.timeout_secs as int,
        ),
    ensures
        drain(policy, looks).0 == k + 1,
        looks[k as int].active == 0 ==> drain(policy, looks).1 == Some(DrainStep::Finished),
        looks[k as int].active > 0 ==> drain(policy, looks).1 == Some(
            DrainStep::TimedOut { remaining: looks[k as int].active },
        ),
    decreases k,
{
    if k > 0 {
        let rest = looks.drop_first();
        assert forall|j: int| 0 <= j < k - 1 implies (#[trigger] rest[j]).active > 0
            && !longer_than(rest[j].elapsed, policy.timeout_secs as int) by {
            assert(rest[j] == looks[j + 1]);
        }
        assert(rest[k - 1] == looks[k as int]);
        lemma_drain_ends_at_first(policy, rest, (k - 1) as nat);
    }
}

} // verus!

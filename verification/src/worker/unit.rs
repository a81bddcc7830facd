//! One execution unit: the life of a dispatched task from its start to its
//! removal from the registry.
//!
//! A unit trains, reports a successful result and leaves the registry. It
//! looks at the shutdown flag before it starts; a unit that is skipped,
//! aborted or failed reports nothing. Whatever happens, it leaves the
//! registry exactly once.

use crate::api::types::{GradientMetrics, SubmitGradientRequest};
use crate::error::ClientError;
use crate::ident::{ProviderId, TaskId};
use crate::worker::training::{Outcome, TrainingResult};
use vstd::prelude::*;
use vstd::string::*;

verus! {

/// How gradients are compressed before they are uploaded.
pub open spec fn compression_method() -> Seq<char> {
    "quantize"@
}

/// The report of `result` for task `task_id` by provider `provider_id`.
pub fn gradient_report(
    task_id: TaskId,
    provider_id: ProviderId,
    result: TrainingResult,
) -> (r: SubmitGradientRequest)
    ensures
        r.task_id == task_id,
        r.provider_id == provider_id,
        r.gradient_cid == result.gradient_cid,
        r.metrics.loss_bits == result.metrics.loss_bits,
        r.metrics.accuracy_bits == result.metrics.accuracy_bits,
        r.metrics.training_duration_secs == result.metrics.duration_secs,
        r.metrics.compression_method@ == compression_method(),
{
    SubmitGradientRequest {
        task_id,
        provider_id,
        gradient_cid: result.gradient_cid,
        metrics: GradientMetrics {
            loss_bits: result.metrics.loss_bits,
            accuracy_bits: result.metrics.accuracy_bits,
            training_duration_secs: result.metrics.duration_secs,
            compression_method: String::from_str("quantize"),
        },
    }
}

/// How far a unit has come.
#[derive(Clone, Copy, Debug, PartialEq, Eq, Structural)]
pub enum UnitState {
    /// Spawned, not started.
    Pending,
    /// The training run is under way.
    Training,
    /// The result is being submitted.
    Reporting,
    /// The unit has left the registry.
    Done,
}

/// What happened to a unit.
#[derive(Debug)]
pub enum UnitEvent {
    /// The unit was scheduled; whether shutdown has been raised.
    Scheduled { shutdown: bool },
    /// The training run ended.
    Trained(Outcome),
    /// The submission of the result ended, well or not.
    Reported(Result<(), ClientError>),
}

/// What a unit does next.
#[derive(Debug)]
pub enum UnitAction {
    /// Run the training of the task.
    Train,
    /// Submit this report.
    Report(SubmitGradientRequest),
    /// Remove the task from the registry; the unit is over.
    Deregister(TaskId),
    /// Nothing: the unit was over already.
    Stop,
}

/// The kind of a unit's action.
#[derive(Clone, Copy, Debug, PartialEq, Eq, Structural)]
pub enum ActionKind {
    Train,
    Report,
    Deregister,
    Stop,
}

/// The kind of `action`.
pub open spec fn kind_of(action: UnitAction) -> ActionKind {
    match action {
        UnitAction::Train => ActionKind::Train,
        UnitAction::Report(_) => ActionKind::Report,
        UnitAction::Deregister(_) => ActionKind::Deregister,
        UnitAction::Stop => ActionKind::Stop,
    }
}

/// The state and the kind of action that follow `event` in `state`.
///
/// A unit that finds shutdown raised before it starts is skipped. A
/// completed training is reported; a failed or aborted one is not. A unit
/// leaves the registry when it ends, and only then.
pub open spec fn unit_next(state: UnitState, event: UnitEvent) -> (UnitState, ActionKind) {
    match (state, event) {
        (UnitState::Done, _) => (UnitState::Done, ActionKind::Stop),
        (UnitState::Pending, UnitEvent::Scheduled { shutdown: false }) => (
            UnitState::Training,
            ActionKind::Train,
        ),
        (UnitState::Training, UnitEvent::Trained(Outcome::Completed(_))) => (
            UnitState::Reporting,
            ActionKind::Report,
        ),
        _ => (UnitState::Done, ActionKind::Deregister),
    }
}

/// Decides what the unit of task `task_id` does after `event`.
pub fn unit_step(
    task_id: TaskId,
    provider_id: ProviderId,
    state: UnitState,
    event: UnitEvent,
) -> (r: (UnitState, UnitAction))
    ensures
        (r.0, kind_of(r.1)) == unit_next(state, event),
        r.1 matches UnitAction::Deregister(id) ==> id == task_id,
        r.1 matches UnitAction::Report(report) ==> (event matches UnitEvent::Trained(
            Outcome::Completed(result),
        ) && report.task_id == task_id && report.provider_id == provider_id
            && report.gradient_cid == result.gradient_cid && report.metrics.loss_bits
            == result.metrics.loss_bits && report.metrics.accuracy_bits
            == result.metrics.accuracy_bits && report.metrics.training_duration_secs
            == result.metrics.duration_secs && report.metrics.compression_method@
            == compression_method()),
{
    match (state, event) {
        (UnitState::Done, _) => (UnitState::Done, UnitAction::Stop),
        (UnitState::Pending, UnitEvent::Scheduled { shutdown: false }) => (
            UnitState::Training,
            UnitAction::Train,
        ),
        (UnitState::Training, UnitEvent::Trained(Outcome::Completed(result))) => (
            UnitState::Reporting,
            UnitAction::Report(gradient_report(task_id, provider_id, result)),
        ),
        _ => (UnitState::Done, UnitAction::Deregister(task_id)),
    }
}

/// The state of a unit after `events`, from `state`.
pub open spec fn unit_state_after(state: UnitState, events: Seq<UnitEvent>) -> UnitState
    decreases events.len(),
{
    if events.len() == 0 {
        state
    } else {
        unit_next(unit_state_after(state, events.drop_last()), events.last()).0
    }
}

/// The number of actions of kind `kind` that a unit takes on `events`, from
/// `state`.
pub open spec fn unit_count(state: UnitState, events: Seq<UnitEvent>, kind: ActionKind) -> nat
    decreases events.len(),
{
    if events.len() == 0 {
        0
    } else {
        let earlier = unit_count(state, events.drop_last(), kind);
        let before = unit_state_after(state, events.drop_last());
        if unit_next(before, events.last()).1 == kind {
            earlier + 1
        } else {
            earlier
        }
    }
}

/// Whatever happens to a unit, it leaves the registry at most once, and
/// exactly once when it has ended.
pub proof fn lemma_unit_deregisters_once(events: Seq<UnitEvent>)
    ensures
        unit_count(UnitState::Pending, events, ActionKind::Deregister) == (if unit_state_after(
            UnitState::Pending,
            events,
        ) == UnitState::Done {
            1nat
        } else {
            0nat
        }),
    decreases events.len(),
{
    if events.len() > 0 {
        lemma_unit_deregisters_once(events.drop_last());
    }
}

/// A unit ends after at most three events, whatever they are.
pub proof fn lemma_unit_ends(events: Seq<UnitEvent>)
    requires
        events.len() >= 3,
    ensures
        unit_state_after(UnitState::Pending, events) == UnitState::Done,
    decreases events.len(),
{
    if events.len() == 3 {
        let e0 = events.take(0);
        let e1 = events.take(1);
        let e2 = events.take(2);
        assert(events.drop_last() =~= e2);
        assert(e2.drop_last() =~= e1);
        assert(e1.drop_last() =~= e0);
        assert(unit_state_after(UnitState::Pending, e0) == UnitState::Pending);
        let s1 = unit_state_after(UnitState::Pending, e1);
        assert(s1 == UnitState::Training || s1 == UnitState::Done);
        let s2 = unit_state_after(UnitState::Pending, e2);
        assert(s2 == UnitState::Reporting || s2 == UnitState::Done);
    } else {
        lemma_unit_ends(events.drop_last());
    }
}

/// Whether `event` brings the result of a completed training.
pub open spec fn has_result(event: UnitEvent) -> bool {
    event matches UnitEvent::Trained(Outcome::Completed(_))
}

/// A unit that finds shutdown raised when it is scheduled, or whose
/// training is aborted or fails, reports nothing.
pub proof fn lemma_no_report_without_result(events: Seq<UnitEvent>)
    requires
        forall|i: int| 0 <= i < events.len() ==> !has_result(#[trigger] events[i]),
    ensures
        unit_count(UnitState::Pending, events, ActionKind::Report) == 0,
    decreases events.len(),
{
    if events.len() > 0 {
        let init = events.drop_last();
        assert forall|i: int| 0 <= i < init.len() implies !has_result(#[trigger] init[i]) by {
            assert(init[i] == events[i]);
        }
        lemma_no_report_without_result(init);
        assert(!has_result(events[events.len() - 1]));
    }
}

/// A unit that is scheduled after shutdown was raised never trains and
/// never reports.
pub proof fn lemma_skipped_unit_does_nothing(events: Seq<UnitEvent>)
    requires
        events.len() > 0,
        events[0] matches UnitEvent::Scheduled { shutdown: true },
    ensures
        unit_count(UnitState::Pending, events, ActionKind::Train) == 0,
        unit_count(UnitState::Pending, events, ActionKind::Report) == 0,
        unit_count(UnitState::Pending, events, ActionKind::Deregister) == 1,
        unit_state_after(UnitState::Pending, events) == UnitState::Done,
    decreases events.len(),
{
    let init = events.drop_last();
    if events.len() == 1 {
        assert(events.last() == events[0]);
        assert(unit_state_after(UnitState::Pending, init) == UnitState::Pending);
        assert(unit_count(UnitState::Pending, init, ActionKind::Train) == 0);
        assert(unit_count(UnitState::Pending, init, ActionKind::Report) == 0);
        assert(unit_count(UnitState::Pending, init, ActionKind::Deregister) == 0);
    } else {
        assert(init[0] == events[0]);
        lemma_skipped_unit_does_nothing(init);
    }
}

} // verus!

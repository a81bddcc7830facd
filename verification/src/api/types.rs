//! Values exchanged with the coordinating service.

use crate::ident::{ProviderId, TaskId};
use vstd::prelude::*;

verus! {

/// A weekly window in which the provider accepts work.
#[derive(Debug)]
pub struct AvailabilityWindow {
    pub day_of_week: u8,
    pub start_hour: u8,
    pub end_hour: u8,
    pub timezone: String,
}

/// Standing of a provider with the coordinating service.
#[derive(Clone, Copy, Debug, PartialEq, Eq, Structural)]
pub enum ProviderStatus {
    Active,
    Idle,
    Busy,
    Offline,
    Suspended,
    Banned,
}

/// A task assigned to this provider, as a poll returns it.
#[derive(Debug)]
pub struct ProviderTaskInfo {
    pub id: TaskId,
    pub name: String,
    pub task_status: String,
    pub batch_start: i32,
    pub batch_end: i32,
    pub assignment_status: String,
}

/// The liveness report of the agent without its utilisation figures: who
/// reports and which tasks were executing when the report was made.
#[derive(Debug)]
pub struct HeartbeatSnapshot {
    pub provider_id: ProviderId,
    /// Copy of the registry at the moment of the report.
    pub current_tasks: Vec<TaskId>,
}

/// Metrics submitted with a gradient. Loss and accuracy are held as the
/// bit patterns of their double-precision values.
#[derive(Debug)]
pub struct GradientMetrics {
    pub loss_bits: u64,
    pub accuracy_bits: u64,
    pub training_duration_secs: u64,
    pub compression_method: String,
}

/// The report of a finished task.
#[derive(Debug)]
pub struct SubmitGradientRequest {
    pub task_id: TaskId,
    pub provider_id: ProviderId,
    pub gradient_cid: String,
    pub metrics: GradientMetrics,
}

} // verus!

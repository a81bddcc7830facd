//! The coordinating service as the agent sees it: the values it exchanges
//! and the addresses and answers of its endpoints.

pub mod client;
pub mod types;

pub use client::BackendClient;
pub use types::{
    AvailabilityWindow, GradientMetrics, HeartbeatSnapshot, ProviderStatus, ProviderTaskInfo,
    SubmitGradientRequest,
};

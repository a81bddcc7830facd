//! Core of a compute-provider agent: the rules by which the agent tracks
//! in-flight tasks, dispatches newly assigned work, drains on shutdown,
//! retries artifact downloads, lays out its local cache and drives a training
//! run. Every decision is a verified function from plain values to plain
//! values; networking, the filesystem and process handling live with the
//! caller.

pub mod api;
pub mod config;
pub mod error;
pub mod gpu;
pub mod ident;
pub mod json;
pub mod parse;
pub mod storage;
pub mod text;
pub mod time;
pub mod worker;

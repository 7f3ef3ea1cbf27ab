//! Core of a small supervisor: it reassembles chunked binary messages
//! arriving over a shared-memory channel into complete logical messages, and
//! tracks the lifecycle of the single worker process it may launch.
//!
//! The caller (an outer event loop) performs all I/O — draining the channel,
//! spawning the worker, probing its liveness — and hands the observed plain
//! values to this crate, which owns every decision: how chunks group into
//! messages, when a launch may proceed, and what an observed exit means.

pub mod control;
pub mod reassembly;
pub mod supervisor;

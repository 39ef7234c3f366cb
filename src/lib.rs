//! Core of a sandboxed code-execution service: admission control, the
//! session registry, lossy live-output fan-out, the orchestration state
//! machine that ties them together, and the pure parts of launching a
//! sandbox process.

pub mod admission;
pub mod broadcast;
pub mod registry;
pub mod ids;
pub mod orchestrator;
pub mod api;
pub mod sandbox;

//! Swarm coordination: voting, performance counters and emergent patterns.

pub mod consensus;
pub mod delegation;
pub mod emergence;
pub mod metrics;

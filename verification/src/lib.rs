//! Verified core of a multi-agent task assistant: task-intelligence rules
//! (dependency graphs, decomposition, keyword features), agent routing,
//! configuration, swarm bookkeeping and a small reinforcement-learning
//! environment.

use vstd::prelude::*;

pub mod agents;
pub mod ai;
pub mod api;
pub mod clock;
pub mod config;
pub mod decimal;
pub mod error;
pub mod learning;
pub mod metrics;
pub mod named_map;
pub mod random;
pub mod rl;
pub mod swarm;
pub mod task_intelligence;
pub mod text;
pub mod types;

verus! {

/// Adds two numbers; callers keep the sum within `usize`.
pub fn add(left: usize, right: usize) -> (sum: usize)
    requires
        left + right <= usize::MAX,
    ensures
        sum == left + right,
{
    left + right
}

} // verus!

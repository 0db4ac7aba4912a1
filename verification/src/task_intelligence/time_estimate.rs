//! Duration estimates for tasks without history.

use vstd::prelude::*;

use crate::types::TaskPriority;

verus! {

/// Minutes a task of the given priority is expected to take at least.
pub open spec fn priority_base_minutes(p: TaskPriority) -> int {
    match p {
        TaskPriority::Critical => 180,
        TaskPriority::High => 120,
        TaskPriority::Medium => 60,
        TaskPriority::Low => 30,
        TaskPriority::Inital => 45,
    }
}

/// A duration estimate in seconds, with a range, the confidence in percent
/// and the number of past executions it rests on.
#[derive(Debug, Clone, Copy, PartialEq, Eq, Structural)]
pub struct DurationEstimate {
    pub estimated_seconds: i64,
    pub confidence_percent: u32,
    pub min_seconds: i64,
    pub max_seconds: i64,
    pub based_on_samples: usize,
}

/// The estimate without history: the larger of the complexity minutes
/// (the complexity estimate scaled to two hours) and the priority's base
/// minutes, with half and twice that as its range, at a confidence of
/// fifty percent.
pub fn heuristic_estimate(priority: TaskPriority, complexity_minutes: i64) -> (e: DurationEstimate)
    requires
        0 <= complexity_minutes <= 120,
    ensures
        ({
            let minutes = if complexity_minutes >= priority_base_minutes(priority) {
                complexity_minutes as int
            } else {
                priority_base_minutes(priority)
            };
            &&& e.estimated_seconds == minutes * 60
            &&& e.min_seconds == minutes * 30
            &&& e.max_seconds == minutes * 120
            &&& e.based_on_samples == 0
            &&& e.confidence_percent == 50
        }),
{
    let base: i64 = match priority {
        TaskPriority::Critical => 180,
        TaskPriority::High => 120,
        TaskPriority::Medium => 60,
        TaskPriority::Low => 30,
        TaskPriority::Inital => 45,
    };
    let minutes = if complexity_minutes >= base {
        complexity_minutes
    } else {
        base
    };
    let estimated_seconds = minutes * 60;
    DurationEstimate {
        estimated_seconds,
        confidence_percent: 50,
        min_seconds: estimated_seconds / 2,
        max_seconds: estimated_seconds * 2,
        based_on_samples: 0,
    }
}

} // verus!

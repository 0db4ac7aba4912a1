//! Counters kept by the task workers.

use vstd::prelude::*;

use crate::types::TaskPriority;

verus! {

/// Counters of the task intake worker.
#[derive(Debug)]
pub struct TaskMetrics {
    pub tasks_received: u64,
    pub tasks_processed: u64,
    pub tasks_failed: u64,
    pub project_classifications_requested: u64,
    pub project_classifications_successful: u64,
}

impl TaskMetrics {
    /// All counters at zero.
    pub fn new() -> (m: Self)
        ensures
            m.tasks_received == 0,
            m.tasks_processed == 0,
            m.tasks_failed == 0,
            m.project_classifications_requested == 0,
            m.project_classifications_successful == 0,
    {
        TaskMetrics {
            tasks_received: 0,
            tasks_processed: 0,
            tasks_failed: 0,
            project_classifications_requested: 0,
            project_classifications_successful: 0,
        }
    }

    /// Counts a received task and returns the new count.
    pub fn increment_received(&mut self) -> (n: u64)
        requires
            old(self).tasks_received < u64::MAX,
        ensures
            n == old(self).tasks_received + 1,
            *final(self) == (TaskMetrics { tasks_received: n, ..*old(self) }),
    {
        self.tasks_received = self.tasks_received + 1;
        self.tasks_received
    }

    /// Counts a processed task and returns the new count.
    pub fn increment_processed(&mut self) -> (n: u64)
        requires
            old(self).tasks_processed < u64::MAX,
        ensures
            n == old(self).tasks_processed + 1,
            *final(self) == (TaskMetrics { tasks_processed: n, ..*old(self) }),
    {
        self.tasks_processed = self.tasks_processed + 1;
        self.tasks_processed
    }

    /// Counts a failed task and returns the new count.
    pub fn increment_failed(&mut self) -> (n: u64)
        requires
            old(self).tasks_failed < u64::MAX,
        ensures
            n == old(self).tasks_failed + 1,
            *final(self) == (TaskMetrics { tasks_failed: n, ..*old(self) }),
    {
        self.tasks_failed = self.tasks_failed + 1;
        self.tasks_failed
    }

    /// Counts a requested project classification and returns the new count.
    pub fn increment_classification_requested(&mut self) -> (n: u64)
        requires
            old(self).project_classifications_requested < u64::MAX,
        ensures
            n == old(self).project_classifications_requested + 1,
            *final(self) == (TaskMetrics { project_classifications_requested: n, ..*old(self) }),
    {
        self.project_classifications_requested = self.project_classifications_requested + 1;
        self.project_classifications_requested
    }

    /// Counts a successful project classification and returns the new count.
    pub fn increment_classification_successful(&mut self) -> (n: u64)
        requires
            old(self).project_classifications_successful < u64::MAX,
        ensures
            n == old(self).project_classifications_successful + 1,
            *final(self) == (TaskMetrics { project_classifications_successful: n, ..*old(self) }),
    {
        self.project_classifications_successful = self.project_classifications_successful + 1;
        self.project_classifications_successful
    }
}

/// Counters of the project worker.
#[derive(Debug)]
pub struct ProjectMetrics {
    pub requests_received: u64,
    pub requests_processed: u64,
    pub requests_failed: u64,
}

impl ProjectMetrics {
    /// All counters at zero.
    pub fn new() -> (m: Self)
        ensures
            m.requests_received == 0,
            m.requests_processed == 0,
            m.requests_failed == 0,
    {
        ProjectMetrics { requests_received: 0, requests_processed: 0, requests_failed: 0 }
    }

    /// Counts a received request and returns the new count.
    pub fn increment_received(&mut self) -> (n: u64)
        requires
            old(self).requests_received < u64::MAX,
        ensures
            n == old(self).requests_received + 1,
            *final(self) == (ProjectMetrics { requests_received: n, ..*old(self) }),
    {
        self.requests_received = self.requests_received + 1;
        self.requests_received
    }

    /// Counts a processed request and returns the new count.
    pub fn increment_processed(&mut self) -> (n: u64)
        requires
            old(self).requests_processed < u64::MAX,
        ensures
            n == old(self).requests_processed + 1,
            *final(self) == (ProjectMetrics { requests_processed: n, ..*old(self) }),
    {
        self.requests_processed = self.requests_processed + 1;
        self.requests_processed
    }

    /// Counts a failed request and returns the new count.
    pub fn increment_failed(&mut self) -> (n: u64)
        requires
            old(self).requests_failed < u64::MAX,
        ensures
            n == old(self).requests_failed + 1,
            *final(self) == (ProjectMetrics { requests_failed: n, ..*old(self) }),
    {
        self.requests_failed = self.requests_failed + 1;
        self.requests_failed
    }
}

/// Counters of the todo worker, including tasks processed per priority.
#[derive(Debug)]
pub struct WorkerMetrics {
    pub tasks_processed: u64,
    pub tasks_succeeded: u64,
    pub tasks_failed: u64,
    pub tasks_timeout: u64,
    pub critical_tasks_processed: u64,
    pub high_tasks_processed: u64,
    pub medium_tasks_processed: u64,
    pub low_tasks_processed: u64,
}

impl WorkerMetrics {
    /// All counters at zero.
    pub fn new() -> (m: Self)
        ensures
            m == (WorkerMetrics {
                tasks_processed: 0,
                tasks_succeeded: 0,
                tasks_failed: 0,
                tasks_timeout: 0,
                critical_tasks_processed: 0,
                high_tasks_processed: 0,
                medium_tasks_processed: 0,
                low_tasks_processed: 0,
            }),
    {
        WorkerMetrics {
            tasks_processed: 0,
            tasks_succeeded: 0,
            tasks_failed: 0,
            tasks_timeout: 0,
            critical_tasks_processed: 0,
            high_tasks_processed: 0,
            medium_tasks_processed: 0,
            low_tasks_processed: 0,
        }
    }

    /// Counts a processed task and returns the new count.
    pub fn increment_processed(&mut self) -> (n: u64)
        requires
            old(self).tasks_processed < u64::MAX,
        ensures
            n == old(self).tasks_processed + 1,
            *final(self) == (WorkerMetrics { tasks_processed: n, ..*old(self) }),
    {
        self.tasks_processed = self.tasks_processed + 1;
        self.tasks_processed
    }

    /// Counts a succeeded task.
    pub fn increment_succeeded(&mut self)
        requires
            old(self).tasks_succeeded < u64::MAX,
        ensures
            *final(self) == (WorkerMetrics { tasks_succeeded: (old(self).tasks_succeeded + 1) as u64, ..*old(self) }),
    {
        self.tasks_succeeded = self.tasks_succeeded + 1;
    }

    /// Counts a failed task.
    pub fn increment_failed(&mut self)
        requires
            old(self).tasks_failed < u64::MAX,
        ensures
            *final(self) == (WorkerMetrics { tasks_failed: (old(self).tasks_failed + 1) as u64, ..*old(self) }),
    {
        self.tasks_failed = self.tasks_failed + 1;
    }

    /// Counts a timed-out task.
    pub fn increment_timeout(&mut self)
        requires
            old(self).tasks_timeout < u64::MAX,
        ensures
            *final(self) == (WorkerMetrics { tasks_timeout: (old(self).tasks_timeout + 1) as u64, ..*old(self) }),
    {
        self.tasks_timeout = self.tasks_timeout + 1;
    }

    /// Counts a processed task of the given priority; tasks of the initial
    /// priority have no counter.
    pub fn increment_priority_counter(&mut self, priority: &TaskPriority)
        requires
            old(self).critical_tasks_processed < u64::MAX,
            old(self).high_tasks_processed < u64::MAX,
            old(self).medium_tasks_processed < u64::MAX,
            old(self).low_tasks_processed < u64::MAX,
        ensures
            *final(self) == match *priority {
                TaskPriority::Critical => WorkerMetrics { critical_tasks_processed: (old(self).critical_tasks_processed + 1) as u64, ..*old(self) },
                TaskPriority::High => WorkerMetrics { high_tasks_processed: (old(self).high_tasks_processed + 1) as u64, ..*old(self) },
                TaskPriority::Medium => WorkerMetrics { medium_tasks_processed: (old(self).medium_tasks_processed + 1) as u64, ..*old(self) },
                TaskPriority::Low => WorkerMetrics { low_tasks_processed: (old(self).low_tasks_processed + 1) as u64, ..*old(self) },
                TaskPriority::Inital => *old(self),
            },
    {
        match priority {
            TaskPriority::Critical => self.critical_tasks_processed = self.critical_tasks_processed + 1,
            TaskPriority::High => self.high_tasks_processed = self.high_tasks_processed + 1,
            TaskPriority::Medium => self.medium_tasks_processed = self.medium_tasks_processed + 1,
            TaskPriority::Low => self.low_tasks_processed = self.low_tasks_processed + 1,
            TaskPriority::Inital => {},
        }
    }
}

} // verus!

use vstd::prelude::*;

verus! {

/// Represents a job in the scheduling framework.
#[derive(Debug, Clone, PartialEq, Eq)]
pub struct Job {}

/// Enum for all possible states of a job.
#[derive(Debug, Clone, Copy, PartialEq, Eq, Structural)]
pub enum JobState {
    Running,
    PendingRetry,
    Succeeded,
    Failed,
    Cancelled,
}

} // verus!

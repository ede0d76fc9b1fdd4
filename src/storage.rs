use vstd::prelude::*;

use crate::types::id::{ResourceGroupId, SignedJobId};
use crate::types::io::TaskOutput;

verus! {

/// The owners that a shared data object can have.
pub enum SharedDataOwner {
    ResourceGroup(ResourceGroupId),
    Job(SignedJobId),
}

/// The result of a job when queried.
pub enum JobResult {
    NotReady,
    Output(Vec<TaskOutput>),
    Stopped,
}

} // verus!

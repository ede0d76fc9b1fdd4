use vstd::prelude::*;

verus! {

/// Represents a value object.
#[derive(Debug, Clone, PartialEq, Eq)]
pub struct Value {}

/// Represents a data object.
#[derive(Debug, Clone, PartialEq, Eq)]
pub struct Data {}

/// Represents an input of a task.
#[derive(Debug, Clone, PartialEq, Eq)]
pub struct TaskInput {}

/// Represents an output of a task.
#[derive(Debug, Clone, PartialEq, Eq)]
pub struct TaskOutput {}

} // verus!

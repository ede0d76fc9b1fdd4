use vstd::prelude::*;

pub mod graph_laws;
pub mod graph_model;
pub mod schema;
pub mod task_graph;
pub mod type_descriptor;

pub use self::schema::{
    check_schema_version,
    SemanticVersion,
    SerializedTaskGraph,
    TASK_GRAPH_SCHEMA_COMPATIBLE_VERSION,
    TASK_GRAPH_SCHEMA_VERSION,
};
pub use self::task_graph::{
    DataflowDependency,
    DataflowDependencyIndex,
    Task,
    TaskDescriptor,
    TaskGraph,
    TaskIndex,
    TaskInputOutputIndex,
};
pub use self::type_descriptor::{
    BytesTypeDescriptor,
    DataTypeDescriptor,
    FloatTypeDescriptor,
    IntTypeDescriptor,
    MapKeyTypeDescriptor,
    PrimitiveTypeDescriptor,
    StructName,
    ValueTypeDescriptor,
};

verus! {

/// The failures that building or decoding a task graph reports.
#[derive(Debug, Clone, PartialEq, Eq)]
pub enum Error {
    /// A struct type descriptor was given an empty name.
    InvalidStructName(String),
    /// A task descriptor does not fit the graph it is inserted into.
    InvalidTaskInputs(String),
    /// A serialized graph carries a schema version that does not parse, or that this build
    /// cannot read.
    InvalidSchemaVersion(String),
    /// Replaying a serialized graph placed a task at another index than its position.
    CorruptedTaskOrder(String),
}

/// Enum for all possible states of a task.
#[derive(Debug, Clone, PartialEq, Eq)]
pub enum TaskState {
    PENDING,
    Ready,
    Running,
    Succeeded,
    Failed(String),
    Cancelled,
}

/// Represents metadata associated with a task.
#[derive(Debug, Clone, PartialEq, Eq)]
pub struct TaskMetadata {}

} // verus!

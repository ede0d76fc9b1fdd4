//! The task-graph core of a distributed job scheduler: a type-descriptor algebra for the data
//! that flows between tasks, an append-only DAG of tasks and data-flow dependencies built by
//! validated insertions, and a schema-versioned serialized form that rebuilds a graph by
//! replaying those insertions.

pub mod job;
pub mod storage;
pub mod task;
pub mod types;

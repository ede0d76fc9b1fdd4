use vstd::prelude::*;

use crate::task::Error;
use crate::task::graph_model::{descriptor_views, project, replay};
use crate::task::task_graph::{TaskDescriptor, TaskGraph};

verus! {

/// Task graph schema version that this build writes.
pub const TASK_GRAPH_SCHEMA_VERSION: &'static str = "0.1.0";

/// The schema versions that this build reads, as a semantic version requirement.
pub const TASK_GRAPH_SCHEMA_COMPATIBLE_VERSION: &'static str = ">=0.1.0,<0.2.0";

/// The lowest compatible major version (inclusive bound `0.1.0`).
const COMPATIBLE_MIN_MAJOR: u64 = 0;

/// The lowest compatible minor version (inclusive bound `0.1.0`).
const COMPATIBLE_MIN_MINOR: u64 = 1;

/// The major version of the exclusive upper bound `0.2.0`.
const COMPATIBLE_END_MAJOR: u64 = 0;

/// The minor version of the exclusive upper bound `0.2.0`.
const COMPATIBLE_END_MINOR: u64 = 2;

/// A serialized task graph: a schema version and the descriptors of its tasks in index order.
#[derive(Debug, Clone, PartialEq, Eq)]
pub struct SerializedTaskGraph {
    pub schema_version: String,
    pub tasks: Vec<TaskDescriptor>,
}

/// A semantic version as the schema check reads it: the three numbers and the pre-release tag
/// (build metadata plays no part in precedence).
#[derive(Debug, Clone, PartialEq, Eq)]
pub struct SemanticVersion {
    pub major: u64,
    pub minor: u64,
    pub patch: u64,
    pub pre_release: String,
}

/// What `semver::Version::parse` makes of a text: `None` when it is no semantic version, else
/// its major, minor and patch numbers and its pre-release tag.
pub uninterp spec fn semver_parse(text: Seq<char>) -> Option<(u64, u64, u64, Seq<char>)>;

/// Relies on `semver::Version::parse`: whether the text is a semantic version, and if so its
/// numbers and pre-release tag; on failure, the parser's message.
#[verifier::external_body]
fn parse_semantic_version(text: &str) -> (r: Result<SemanticVersion, String>)
    ensures
        match r {
            Ok(v) => semver_parse(text@) == Some((v.major, v.minor, v.patch, v.pre_release@)),
            Err(_) => semver_parse(text@) is None,
        },
{
    match semver::Version::parse(text) {
        Ok(v) => Ok(
            SemanticVersion {
                major: v.major,
                minor: v.minor,
                patch: v.patch,
                pre_release: v.pre.as_str().to_owned(),
            },
        ),
        Err(e) => Err(e.to_string()),
    }
}

/// Version `(major, minor, patch)` is at or above `(min_major, min_minor, 0)` in precedence.
pub open spec fn at_least(major: u64, minor: u64, min_major: u64, min_minor: u64) -> bool {
    major > min_major || (major == min_major && minor >= min_minor)
}

/// The schema compatibility rule `>=0.1.0, <0.2.0`: a release version (no pre-release tag) from
/// `0.1.0` up to, not including, `0.2.0`. A pre-release version never matches, since neither
/// bound carries a pre-release tag of the same numbers.
pub open spec fn schema_compatible(major: u64, minor: u64, patch: u64, pre_release: Seq<char>) -> bool {
    &&& pre_release.len() == 0
    &&& at_least(major, minor, 0, 1)
    &&& !at_least(major, minor, 0, 2)
}

impl SemanticVersion {
    /// Whether a serialized graph of this schema version can be read by this build.
    pub fn is_compatible_schema_version(&self) -> (r: bool)
        ensures
            r == schema_compatible(self.major, self.minor, self.patch, self.pre_release@),
    {
        let above_min = self.major > COMPATIBLE_MIN_MAJOR || (self.major == COMPATIBLE_MIN_MAJOR
            && self.minor >= COMPATIBLE_MIN_MINOR);
        let at_end = self.major > COMPATIBLE_END_MAJOR || (self.major == COMPATIBLE_END_MAJOR
            && self.minor >= COMPATIBLE_END_MINOR);
        self.pre_release.as_str().is_empty() && above_min && !at_end
    }
}

/// Decides on the result of parsing a schema version: accepted exactly when the text parsed
/// and the version is compatible.
pub fn check_schema_version(schema_version: &str, parsed: Result<SemanticVersion, String>) -> (r:
    Result<(), Error>)
    ensures
        r is Ok <==> (parsed matches Ok(v) && schema_compatible(
            v.major,
            v.minor,
            v.patch,
            v.pre_release@,
        )),
        r matches Err(e) ==> e is InvalidSchemaVersion,
{
    match parsed {
        Ok(version) => {
            if version.is_compatible_schema_version() {
                Ok(())
            } else {
                Err(Error::InvalidSchemaVersion(incompatible_version_message(schema_version, TASK_GRAPH_SCHEMA_COMPATIBLE_VERSION)))
            }
        },
        Err(reason) => Err(Error::InvalidSchemaVersion(unparsable_version_message(schema_version, &reason))),
    }
}

/// The schema version text is one this build reads.
pub open spec fn schema_version_accepted(text: Seq<char>) -> bool {
    match semver_parse(text) {
        Some((major, minor, patch, pre_release)) => schema_compatible(major, minor, patch, pre_release),
        None => false,
    }
}

impl TaskGraph {
    /// The serialized form of the graph: the current schema version and the descriptor of each
    /// task in index order.
    pub fn to_serialized_task_graph(&self) -> (r: SerializedTaskGraph)
        requires
            self.wf(),
        ensures
            r.schema_version@ == TASK_GRAPH_SCHEMA_VERSION@,
            descriptor_views(r.tasks@) == project(self@),
    {
        SerializedTaskGraph {
            schema_version: TASK_GRAPH_SCHEMA_VERSION.to_owned(),
            tasks: self.to_task_descriptors(),
        }
    }

    /// Rebuilds a graph from its serialized form: checks the schema version, then replays the
    /// descriptors in order through the insertion's validation.
    pub fn from_serialized_task_graph(serialized: SerializedTaskGraph) -> (r: Result<TaskGraph, Error>)
        ensures
            !schema_version_accepted(serialized.schema_version@) ==> (r matches Err(e)
                && e is InvalidSchemaVersion),
            schema_version_accepted(serialized.schema_version@) ==> match replay(
                descriptor_views(serialized.tasks@),
            ) {
                Some(g) => r matches Ok(built) && built@ == g && built.wf(),
                None => r matches Err(e) && e is InvalidTaskInputs,
            },
    {
        let SerializedTaskGraph { schema_version, tasks } = serialized;
        let parsed = parse_semantic_version(schema_version.as_str());
        match check_schema_version(schema_version.as_str(), parsed) {
            Ok(()) => {},
            Err(e) => {
                return Err(e);
            },
        }
        TaskGraph::from_task_descriptors(tasks)
    }
}

/// Relies on `std::format!`: the message of a schema version that does not parse.
#[verifier::external_body]
fn unparsable_version_message(schema_version: &str, reason: &String) -> String {
    format!("invalid schema version string '{schema_version}': {reason}")
}

/// Relies on `std::format!`: the message of a schema version outside the compatible range.
#[verifier::external_body]
fn incompatible_version_message(schema_version: &str, requirement: &str) -> String {
    format!(
        "incompatible task graph schema version: found {schema_version}, compatible requirements: {requirement}"
    )
}

} // verus!

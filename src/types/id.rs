use std::fmt::Debug;
use std::marker::PhantomData;

use vstd::prelude::*;

verus! {

#[verifier::external_type_specification]
#[verifier::external_body]
pub struct ExUuid(uuid::Uuid);

/// Relies on `uuid::Uuid::new_v4`: a random version-4 UUID. Nothing is promised of its value.
/// It takes no input; it panics only when the operating system's random source fails.
pub assume_specification[ uuid::Uuid::new_v4 ]() -> uuid::Uuid;

/// A globally unique identifier: a UUID tagged with a marker type, so that identifiers of
/// different domains (a job, a task, ...) cannot be mixed up.
#[derive(Debug, Copy, PartialEq, Eq, Hash)]
pub struct Id<TypeMarker: Debug + PartialEq + Eq>(uuid::Uuid, PhantomData<TypeMarker>);

impl<TypeMarker: Debug + PartialEq + Eq> View for Id<TypeMarker> {
    type V = uuid::Uuid;

    closed spec fn view(&self) -> uuid::Uuid {
        self.0
    }
}

impl<TypeMarker: Debug + PartialEq + Eq> Clone for Id<TypeMarker> {
    fn clone(&self) -> (r: Self)
        ensures
            r@ == self@,
    {
        Id(self.0, PhantomData)
    }
}

impl<TypeMarker: Debug + PartialEq + Eq> Default for Id<TypeMarker> {
    /// A fresh random identifier.
    fn default() -> Self {
        Self::new()
    }
}

impl<TypeMarker: Debug + PartialEq + Eq> Id<TypeMarker> {
    /// A fresh random identifier.
    pub fn new() -> Self {
        Id(uuid::Uuid::new_v4(), PhantomData)
    }

    /// The identifier that wraps the given UUID.
    pub fn from(uid: uuid::Uuid) -> (r: Self)
        ensures
            r@ == uid,
    {
        Id(uid, PhantomData)
    }

    /// The wrapped UUID.
    pub fn as_uuid_ref(&self) -> (r: &uuid::Uuid)
        ensures
            *r == self@,
    {
        &self.0
    }
}

/// Marks the identifiers of a resource group.
#[derive(Debug, PartialEq, Eq)]
pub struct ResourceGroupIdMarker;

pub type ResourceGroupId = Id<ResourceGroupIdMarker>;

/// Marks the identifiers of a task.
#[derive(Debug, PartialEq, Eq)]
pub struct TaskIdMarker;

pub type TaskId = Id<TaskIdMarker>;

/// Marks the identifiers of a job.
#[derive(Debug, PartialEq, Eq)]
pub struct JobIdMarker;

pub type JobId = Id<JobIdMarker>;

/// Marks the identifiers of a shared data object.
#[derive(Debug, PartialEq, Eq)]
pub struct DataIdMarker;

pub type DataId = Id<DataIdMarker>;

/// Marks the identifiers of a worker.
#[derive(Debug, PartialEq, Eq)]
pub struct WorkerIdMarker;

pub type WorkerId = Id<WorkerIdMarker>;

/// Marks the identifiers of a task instance.
#[derive(Debug, PartialEq, Eq)]
pub struct TaskInstanceIdMarker;

pub type TaskInstanceId = Id<TaskInstanceIdMarker>;

/// Marks the identifiers of a scheduler.
#[derive(Debug, PartialEq, Eq)]
pub struct SchedulerIdMarker;

pub type SchedulerId = Id<SchedulerIdMarker>;

/// A signed identifier: the resource group that owns a resource, as the signature, paired with
/// the resource's own identifier. Operations that enforce ownership take both.
pub struct SignedId<TypeMarker> where TypeMarker: Debug + PartialEq + Eq {
    signature: ResourceGroupId,
    id: Id<TypeMarker>,
}

impl<TypeMarker> SignedId<TypeMarker> where TypeMarker: Debug + PartialEq + Eq {
    /// The signature of a signed identifier.
    pub closed spec fn spec_signature(&self) -> ResourceGroupId {
        self.signature
    }

    /// The raw identifier of a signed identifier.
    pub closed spec fn spec_id(&self) -> Id<TypeMarker> {
        self.id
    }

    pub fn new(signature: ResourceGroupId, id: Id<TypeMarker>) -> (r: Self)
        ensures
            r.spec_signature() == signature,
            r.spec_id() == id,
    {
        SignedId { signature, id }
    }

    /// The signature: the owning resource group.
    pub fn get_signature(&self) -> (r: &ResourceGroupId)
        ensures
            *r == self.spec_signature(),
    {
        &self.signature
    }

    /// The raw identifier.
    pub fn get(&self) -> (r: &Id<TypeMarker>)
        ensures
            *r == self.spec_id(),
    {
        &self.id
    }
}

pub type SignedJobId = SignedId<JobIdMarker>;

pub type SignedTaskId = SignedId<TaskIdMarker>;

pub type SignedTaskInstanceId = SignedId<TaskInstanceIdMarker>;

} // verus!

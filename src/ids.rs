//! Fresh random identifiers for the entities of the store.

use vstd::prelude::*;
use crate::trusted::new_uuid_text;

verus! {

/// Id of a colony.
#[derive(Debug, Clone, PartialEq, Eq, Hash)]
pub struct ColonyId(pub String);

/// Id of a mission.
#[derive(Debug, Clone, PartialEq, Eq, Hash)]
pub struct MissionId(pub String);

/// Id of a task.
#[derive(Debug, Clone, PartialEq, Eq, Hash)]
pub struct TaskId(pub String);

/// Id of a run.
#[derive(Debug, Clone, PartialEq, Eq, Hash)]
pub struct RunId(pub String);

impl ColonyId {
    /// A random id.
    pub fn new() -> (r: ColonyId) {
        ColonyId(new_uuid_text())
    }

    pub fn as_str(&self) -> (r: &str)
        ensures
            r@ == self.0@,
    {
        self.0.as_str()
    }
}

impl MissionId {
    /// A random id.
    pub fn new() -> (r: MissionId) {
        MissionId(new_uuid_text())
    }

    pub fn as_str(&self) -> (r: &str)
        ensures
            r@ == self.0@,
    {
        self.0.as_str()
    }
}

impl TaskId {
    /// A random id.
    pub fn new() -> (r: TaskId) {
        TaskId(new_uuid_text())
    }

    pub fn as_str(&self) -> (r: &str)
        ensures
            r@ == self.0@,
    {
        self.0.as_str()
    }
}

impl RunId {
    /// A random id.
    pub fn new() -> (r: RunId) {
        RunId(new_uuid_text())
    }

    pub fn as_str(&self) -> (r: &str)
        ensures
            r@ == self.0@,
    {
        self.0.as_str()
    }
}

} // verus!

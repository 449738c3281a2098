//! The authoritative state: every colony, crab, mission, task, dependency edge
//! and run, with lookups by id and the plain record operations.

use vstd::prelude::*;
use crate::model::{ApiError, Colony, Crab, ErrorKind, Mission, Run, Task, TaskDep};
use crate::trusted::new_uuid_text;
use crate::text::{repo_is_valid, repo_ok, trim, trimmed};

verus! {

/// All persisted entities; each table keeps the order of insertion.
pub struct Store {
    pub colonies: Vec<Colony>,
    pub crabs: Vec<Crab>,
    pub missions: Vec<Mission>,
    pub tasks: Vec<Task>,
    pub deps: Vec<TaskDep>,
    pub runs: Vec<Run>,
}

pub open spec fn colony_ids_unique(s: Seq<Colony>) -> bool {
    forall|i: int, j: int| 0 <= i < s.len() && 0 <= j < s.len() && i != j ==> s[i].id@ != s[j].id@
}

pub open spec fn crab_ids_unique(s: Seq<Crab>) -> bool {
    forall|i: int, j: int|
        0 <= i < s.len() && 0 <= j < s.len() && i != j ==> s[i].crab_id@ != s[j].crab_id@
}

pub open spec fn mission_ids_unique(s: Seq<Mission>) -> bool {
    forall|i: int, j: int| 0 <= i < s.len() && 0 <= j < s.len() && i != j ==> s[i].id@ != s[j].id@
}

pub open spec fn task_ids_unique(s: Seq<Task>) -> bool {
    forall|i: int, j: int| 0 <= i < s.len() && 0 <= j < s.len() && i != j ==> s[i].id@ != s[j].id@
}

pub open spec fn run_ids_unique(s: Seq<Run>) -> bool {
    forall|i: int, j: int| 0 <= i < s.len() && 0 <= j < s.len() && i != j ==> s[i].id@ != s[j].id@
}

pub open spec fn has_colony(s: Seq<Colony>, id: Seq<char>) -> bool {
    exists|i: int| 0 <= i < s.len() && s[i].id@ == id
}

pub open spec fn has_crab(s: Seq<Crab>, id: Seq<char>) -> bool {
    exists|i: int| 0 <= i < s.len() && s[i].crab_id@ == id
}

pub open spec fn has_mission(s: Seq<Mission>, id: Seq<char>) -> bool {
    exists|i: int| 0 <= i < s.len() && s[i].id@ == id
}

pub open spec fn has_task(s: Seq<Task>, id: Seq<char>) -> bool {
    exists|i: int| 0 <= i < s.len() && s[i].id@ == id
}

pub open spec fn has_run(s: Seq<Run>, id: Seq<char>) -> bool {
    exists|i: int| 0 <= i < s.len() && s[i].id@ == id
}

/// Some colony, mission, task or run has id `id`.
pub open spec fn id_in_use(s: Store, id: Seq<char>) -> bool {
    has_colony(s.colonies@, id) || has_mission(s.missions@, id) || has_task(s.tasks@, id) || has_run(s.runs@, id)
}

/// Two stores hold the same records in every table.
pub open spec fn same_contents(a: Store, b: Store) -> bool {
    &&& a.colonies@ == b.colonies@
    &&& a.crabs@ == b.crabs@
    &&& a.missions@ == b.missions@
    &&& a.tasks@ == b.tasks@
    &&& a.deps@ == b.deps@
    &&& a.runs@ == b.runs@
}

impl Store {
    /// Ids are unique within each table.
    pub open spec fn wf(&self) -> bool {
        &&& colony_ids_unique(self.colonies@)
        &&& crab_ids_unique(self.crabs@)
        &&& mission_ids_unique(self.missions@)
        &&& task_ids_unique(self.tasks@)
        &&& run_ids_unique(self.runs@)
    }

    pub fn new() -> (r: Store)
        ensures
            r.wf(),
            r.colonies@.len() == 0,
            r.crabs@.len() == 0,
            r.missions@.len() == 0,
            r.tasks@.len() == 0,
            r.deps@.len() == 0,
            r.runs@.len() == 0,
    {
        Store {
            colonies: Vec::new(),
            crabs: Vec::new(),
            missions: Vec::new(),
            tasks: Vec::new(),
            deps: Vec::new(),
            runs: Vec::new(),
        }
    }

    pub fn find_colony(&self, id: &str) -> (r: Option<usize>)
        ensures
            match r {
                Some(i) => i < self.colonies@.len() && self.colonies@[i as int].id@ == id@,
                None => !has_colony(self.colonies@, id@),
            },
    {
        let mut i: usize = 0;
        while i < self.colonies.len()
            invariant
                i <= self.colonies@.len(),
                forall|j: int| 0 <= j < i ==> self.colonies@[j].id@ != id@,
            decreases self.colonies@.len() - i,
        {
            if crate::text::text_eq(self.colonies[i].id.as_str(), id) {
                return Some(i);
            }
            i = i + 1;
        }
        None
    }

    pub fn find_crab(&self, id: &str) -> (r: Option<usize>)
        ensures
            match r {
                Some(i) => i < self.crabs@.len() && self.crabs@[i as int].crab_id@ == id@,
                None => !has_crab(self.crabs@, id@),
            },
    {
        let mut i: usize = 0;
        while i < self.crabs.len()
            invariant
                i <= self.crabs@.len(),
                forall|j: int| 0 <= j < i ==> self.crabs@[j].crab_id@ != id@,
            decreases self.crabs@.len() - i,
        {
            if crate::text::text_eq(self.crabs[i].crab_id.as_str(), id) {
                return Some(i);
            }
            i = i + 1;
        }
        None
    }

    pub fn find_mission(&self, id: &str) -> (r: Option<usize>)
        ensures
            match r {
                Some(i) => i < self.missions@.len() && self.missions@[i as int].id@ == id@,
                None => !has_mission(self.missions@, id@),
            },
    {
        let mut i: usize = 0;
        while i < self.missions.len()
            invariant
                i <= self.missions@.len(),
                forall|j: int| 0 <= j < i ==> self.missions@[j].id@ != id@,
            decreases self.missions@.len() - i,
        {
            if crate::text::text_eq(self.missions[i].id.as_str(), id) {
                return Some(i);
            }
            i = i + 1;
        }
        None
    }

    pub fn find_task(&self, id: &str) -> (r: Option<usize>)
        ensures
            match r {
                Some(i) => i < self.tasks@.len() && self.tasks@[i as int].id@ == id@,
                None => !has_task(self.tasks@, id@),
            },
    {
        let mut i: usize = 0;
        while i < self.tasks.len()
            invariant
                i <= self.tasks@.len(),
                forall|j: int| 0 <= j < i ==> self.tasks@[j].id@ != id@,
            decreases self.tasks@.len() - i,
        {
            if crate::text::text_eq(self.tasks[i].id.as_str(), id) {
                return Some(i);
            }
            i = i + 1;
        }
        None
    }

    pub fn find_run(&self, id: &str) -> (r: Option<usize>)
        ensures
            match r {
                Some(i) => i < self.runs@.len() && self.runs@[i as int].id@ == id@,
                None => !has_run(self.runs@, id@),
            },
    {
        let mut i: usize = 0;
        while i < self.runs.len()
            invariant
                i <= self.runs@.len(),
                forall|j: int| 0 <= j < i ==> self.runs@[j].id@ != id@,
            decreases self.runs@.len() - i,
        {
            if crate::text::text_eq(self.runs[i].id.as_str(), id) {
                return Some(i);
            }
            i = i + 1;
        }
        None
    }

    /// Whether some colony, mission, task or run has id `id`.
    pub fn id_in_use(&self, id: &str) -> (r: bool)
        ensures
            r == id_in_use(*self, id@),
    {
        self.find_colony(id).is_some() || self.find_mission(id).is_some() || self.find_task(id).is_some()
            || self.find_run(id).is_some()
    }

    /// A random id that no colony, mission, task or run holds yet; an internal
    /// error in the unlikely case that the random id is taken.
    pub fn fresh_id(&self) -> (r: Result<String, ApiError>)
        ensures
            match r {
                Ok(id) => !has_colony(self.colonies@, id@) && !has_mission(self.missions@, id@)
                    && !has_task(self.tasks@, id@) && !has_run(self.runs@, id@),
                Err(e) => e.kind == ErrorKind::Internal,
            },
    {
        let id = new_uuid_text();
        if self.find_colony(id.as_str()).is_some() || self.find_mission(id.as_str()).is_some()
            || self.find_task(id.as_str()).is_some() || self.find_run(id.as_str()).is_some() {
            return Err(ApiError::internal("generated id is already in use"));
        }
        Ok(id)
    }

    /// Creates a colony with a random id. The name must hold more than whitespace and the repo,
    /// when given, must be empty or hold exactly one `/`.
    pub fn create_colony(
        &mut self,
        name: String,
        description: Option<String>,
        repo: Option<String>,
        now: u64,
    ) -> (r: Result<Colony, ApiError>)
        requires
            old(self).wf(),
        ensures
            final(self).wf(),
            match r {
                Ok(c) => {
                    &&& trimmed(name@).len() > 0
                    &&& (repo matches Some(x) ==> repo_ok(x@))
                    &&& !has_colony(old(self).colonies@, c.id@)
                    &&& c.name == name
                    &&& c.description@ == (match description {
                        Some(d) => d@,
                        None => Seq::<char>::empty(),
                    })
                    &&& c.repo == repo
                    &&& c.created_at_ms == now
                    &&& final(self).colonies@ == old(self).colonies@.push(c)
                    &&& final(self).crabs == old(self).crabs
                    &&& final(self).missions == old(self).missions
                    &&& final(self).tasks == old(self).tasks
                    &&& final(self).deps == old(self).deps
                    &&& final(self).runs == old(self).runs
                },
                Err(e) => {
                    &&& *final(self) == *old(self)
                    &&& (e.kind == ErrorKind::BadRequest) == (trimmed(name@).len() == 0 || (
                    repo matches Some(x) && !repo_ok(x@)))
                    &&& e.kind != ErrorKind::NotFound
                },
            },
    {
        let id = new_uuid_text();
        self.create_colony_with_id(id, name, description, repo, now)
    }

    /// Creates a colony with id `id`. The name must hold more than whitespace
    /// and the repo, when given, must be empty or `owner/name`; the id must not
    /// be in use.
    pub fn create_colony_with_id(
        &mut self,
        id: String,
        name: String,
        description: Option<String>,
        repo: Option<String>,
        now: u64,
    ) -> (r: Result<Colony, ApiError>)
        requires
            old(self).wf(),
        ensures
            final(self).wf(),
            match r {
                Ok(c) => {
                    &&& trimmed(name@).len() > 0
                    &&& (repo matches Some(x) ==> repo_ok(x@))
                    &&& !id_in_use(*old(self), id@)
                    &&& c.id == id
                    &&& c.name == name
                    &&& c.description@ == (match description {
                        Some(d) => d@,
                        None => Seq::<char>::empty(),
                    })
                    &&& c.repo == repo
                    &&& c.created_at_ms == now
                    &&& final(self).colonies@ == old(self).colonies@.push(c)
                    &&& final(self).crabs == old(self).crabs
                    &&& final(self).missions == old(self).missions
                    &&& final(self).tasks == old(self).tasks
                    &&& final(self).deps == old(self).deps
                    &&& final(self).runs == old(self).runs
                },
                Err(e) => {
                    &&& *final(self) == *old(self)
                    &&& (e.kind == ErrorKind::BadRequest) == (trimmed(name@).len() == 0 || (
                    repo matches Some(x) && !repo_ok(x@)))
                    &&& e.kind != ErrorKind::NotFound
                    &&& (e.kind == ErrorKind::Internal) == (trimmed(name@).len() > 0 && !(repo matches Some(x)
                        && !repo_ok(x@)) && id_in_use(*old(self), id@))
                },
            },
    {
        if trim(name.as_str()).unicode_len() == 0 {
            return Err(ApiError::bad_request("name is required"));
        }
        if let Some(x) = &repo {
            if !repo_is_valid(x.as_str()) {
                return Err(ApiError::bad_request("repo must be in 'owner/repo' format"));
            }
        }
        if self.id_in_use(id.as_str()) {
            return Err(ApiError::internal("id is already in use"));
        }
        let description = match description {
            Some(d) => d,
            None => String::new(),
        };
        let colony = Colony { id, name, description, repo, created_at_ms: now };
        self.colonies.push(colony.clone());
        Ok(colony)
    }
}

} // verus!

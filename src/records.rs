//! Plain record operations of the store: colonies, crabs, ad-hoc tasks and runs.

use vstd::prelude::*;
use crate::metrics::{merge_metrics, merged_metrics, RunMetrics, TimingPatch, TokenUsagePatch};
use crate::model::{ApiError, Burrow, Colony, Crab, ErrorKind, Run, Task};
use crate::protocol::{Assignment, TaskAssigned};
use crate::status::{BurrowMode, CrabState, RunStatus, TaskStatus};
use crate::store::{has_colony, has_crab, has_mission, has_run, has_task, Store};
use crate::text::{repo_is_valid, repo_ok, text_eq, trim, trimmed};

verus! {

/// Within a colony, no two crabs share a role other than `any`.
pub open spec fn roles_unique(crabs: Seq<Crab>) -> bool {
    forall|i: int, j: int|
        0 <= i < crabs.len() && 0 <= j < crabs.len() && i != j && crabs[i].colony_id@
            == crabs[j].colony_id@ && crabs[i].role@ == crabs[j].role@ ==> crabs[i].role@
            == "any"@
}

/// Some crab other than `crab_id` holds `role` in `colony`.
pub open spec fn role_taken(crabs: Seq<Crab>, colony: Seq<char>, role: Seq<char>, crab_id: Seq<char>) -> bool {
    exists|k: int|
        0 <= k < crabs.len() && crabs[k].colony_id@ == colony && crabs[k].role@ == role
            && crabs[k].crab_id@ != crab_id
}

pub open spec fn repo_bad(repo: Option<String>) -> bool {
    match repo {
        Some(x) => !repo_ok(x@),
        None => false,
    }
}

/// The colony a registration binds to: an existing crab's own colony, else the
/// requested one.
pub open spec fn home_colony(crabs: Seq<Crab>, crab_id: Seq<char>, requested: Seq<char>) -> Seq<char> {
    if has_crab(crabs, crab_id) {
        crabs[choose|k: int| 0 <= k < crabs.len() && crabs[k].crab_id@ == crab_id].colony_id@
    } else {
        requested
    }
}

pub open spec fn run_id_taken(runs: Seq<Run>, run_id: Option<String>) -> bool {
    match run_id {
        Some(x) => has_run(runs, x@),
        None => false,
    }
}

pub open spec fn opt_or<T>(o: Option<T>, d: T) -> T {
    match o {
        Some(v) => v,
        None => d,
    }
}

/// `t` moved to status `s` at time `now`.
pub open spec fn task_with_status(t: Task, s: TaskStatus, now: u64) -> Task {
    Task { status: s, updated_at_ms: now, ..t }
}

/// The outcome of registering a crab, as `upsert_crab` states it.
pub open spec fn upsert_outcome(
    before: Store,
    after: Store,
    r: Result<Crab, ApiError>,
    crab_id: Seq<char>,
    colony_id: Seq<char>,
    name: String,
    role: String,
    state: Option<CrabState>,
    now: u64,
) -> bool {
    &&& after.wf()
    &&& (roles_unique(before.crabs@) ==> roles_unique(after.crabs@))
    &&& after.colonies == before.colonies
    &&& after.missions == before.missions
    &&& after.tasks == before.tasks
    &&& after.deps == before.deps
    &&& after.runs == before.runs
    &&& {
        let fields_missing = trimmed(crab_id).len() == 0 || trimmed(colony_id).len() == 0
            || trimmed(name@).len() == 0 || trimmed(role@).len() == 0;
        let no_colony = !has_colony(before.colonies@, colony_id);
        match r {
            Ok(c) => {
                &&& !fields_missing && !no_colony
                &&& (role@ != "any"@ ==> !role_taken(before.crabs@, c.colony_id@, role@, crab_id))
                &&& c.colony_id@ == home_colony(before.crabs@, crab_id, colony_id)
                &&& c.crab_id@ == crab_id
                &&& c.name == name
                &&& c.role == role
                &&& c.state == opt_or(state, CrabState::Idle)
                &&& c.updated_at_ms == now
                &&& if has_crab(before.crabs@, crab_id) {
                    exists|i: int|
                        0 <= i < before.crabs@.len() && before.crabs@[i].crab_id@
                            == crab_id && c.colony_id == before.crabs@[i].colony_id
                            && c.current_task_id == before.crabs@[i].current_task_id
                            && c.current_run_id == before.crabs@[i].current_run_id
                            && after.crabs@ == before.crabs@.update(i, c)
                } else {
                    &&& c.colony_id@ == colony_id
                    &&& c.current_task_id is None
                    &&& c.current_run_id is None
                    &&& after.crabs@ == before.crabs@.push(c)
                }
            },
            Err(e) => {
                &&& after.crabs == before.crabs
                &&& (e.kind == ErrorKind::BadRequest && fields_missing) || (e.kind
                    == ErrorKind::NotFound && !fields_missing && no_colony) || (e.kind
                    == ErrorKind::BadRequest && !fields_missing && !no_colony && role@
                    != "any"@ && role_taken(
                    before.crabs@,
                    home_colony(before.crabs@, crab_id, colony_id),
                    role@,
                    crab_id,
                ))
            },
        }
    }
}

impl Store {
    /// Changes a colony's name, description or repo; absent fields keep their value.
    pub fn update_colony(
        &mut self,
        colony_id: &str,
        repo: Option<String>,
        name: Option<String>,
        description: Option<String>,
    ) -> (r: Result<Colony, ApiError>)
        requires
            old(self).wf(),
        ensures
            final(self).wf(),
            match r {
                Ok(c) => exists|i: int|
                    {
                        &&& 0 <= i < old(self).colonies@.len()
                        &&& old(self).colonies@[i].id@ == colony_id@
                        &&& !repo_bad(repo)
                        &&& c.id == old(self).colonies@[i].id
                        &&& c.name == opt_or(name, old(self).colonies@[i].name)
                        &&& c.description == opt_or(description, old(self).colonies@[i].description)
                        &&& c.repo == (if repo is Some {
                            repo
                        } else {
                            old(self).colonies@[i].repo
                        })
                        &&& c.created_at_ms == old(self).colonies@[i].created_at_ms
                        &&& final(self).colonies@ == old(self).colonies@.update(i, c)
                    },
                Err(e) => {
                    &&& *final(self) == *old(self)
                    &&& e.kind == ErrorKind::NotFound <==> !has_colony(old(self).colonies@, colony_id@)
                    &&& e.kind == ErrorKind::BadRequest <==> (has_colony(old(self).colonies@, colony_id@)
                        && repo_bad(repo))
                    &&& e.kind != ErrorKind::Internal
                },
            },
            final(self).crabs == old(self).crabs,
            final(self).missions == old(self).missions,
            final(self).tasks == old(self).tasks,
            final(self).deps == old(self).deps,
            final(self).runs == old(self).runs,
    {
        let i = match self.find_colony(colony_id) {
            Some(i) => i,
            None => return Err(ApiError::not_found("colony not found")),
        };
        if let Some(x) = &repo {
            if !repo_is_valid(x.as_str()) {
                return Err(ApiError::bad_request("repo must be in 'owner/repo' format"));
            }
        }
        let existing = self.colonies[i].clone();
        let updated = Colony {
            id: existing.id,
            name: match name {
                Some(n) => n,
                None => existing.name,
            },
            description: match description {
                Some(d) => d,
                None => existing.description,
            },
            repo: if repo.is_some() {
                repo
            } else {
                existing.repo
            },
            created_at_ms: existing.created_at_ms,
        };
        self.colonies.set(i, updated.clone());
        Ok(updated)
    }

    /// Registers a crab, or updates the one with the same id. An existing crab
    /// keeps its id, its colony and its current task and run; name, role and
    /// state are replaced (state defaults to idle). A role other than `any`
    /// may be held by one crab per colony.
    pub fn upsert_crab(
        &mut self,
        crab_id: String,
        colony_id: String,
        name: String,
        role: String,
        state: Option<CrabState>,
        now: u64,
    ) -> (r: Result<Crab, ApiError>)
        requires
            old(self).wf(),
        ensures
            upsert_outcome(*old(self), *final(self), r, crab_id@, colony_id@, name, role, state, now),
    {
        if trim(crab_id.as_str()).unicode_len() == 0 || trim(colony_id.as_str()).unicode_len() == 0
            || trim(name.as_str()).unicode_len() == 0 || trim(role.as_str()).unicode_len() == 0 {
            return Err(ApiError::bad_request("crab_id, colony_id, name, and role are required"));
        }
        if self.find_colony(colony_id.as_str()).is_none() {
            return Err(ApiError::not_found("colony_id not found"));
        }
        let existing = self.find_crab(crab_id.as_str());
        let home = match existing {
            Some(i) => self.crabs[i].colony_id.clone(),
            None => colony_id,
        };
        proof {
            if let Some(i) = existing {
                let k = choose|k: int|
                    0 <= k < old(self).crabs@.len() && old(self).crabs@[k].crab_id@ == crab_id@;
                assert(k == i);
            }
            assert(home@ == home_colony(old(self).crabs@, crab_id@, colony_id@));
        }
        if !text_eq(role.as_str(), "any") {
            let mut k: usize = 0;
            while k < self.crabs.len()
                invariant
                    *self == *old(self),
                    old(self).wf(),
                    home@ == home_colony(old(self).crabs@, crab_id@, colony_id@),
                    has_colony(old(self).colonies@, colony_id@),
                    trimmed(crab_id@).len() > 0,
                    trimmed(colony_id@).len() > 0,
                    trimmed(name@).len() > 0,
                    trimmed(role@).len() > 0,
                    role@ != "any"@,
                    k <= self.crabs@.len(),
                    forall|j: int|
                        0 <= j < k ==> !(#[trigger] self.crabs@[j].colony_id@ == home@
                            && self.crabs@[j].role@ == role@ && self.crabs@[j].crab_id@
                            != crab_id@),
                decreases self.crabs@.len() - k,
            {
                if text_eq(self.crabs[k].colony_id.as_str(), home.as_str()) && text_eq(
                    self.crabs[k].role.as_str(),
                    role.as_str(),
                ) && !text_eq(self.crabs[k].crab_id.as_str(), crab_id.as_str()) {
                    proof {
                        assert(role_taken(old(self).crabs@, home@, role@, crab_id@));
                    }
                    return Err(ApiError::bad_request("role is already taken in this colony"));
                }
                k = k + 1;
            }
        }
        let crab_state = match state {
            Some(s) => s,
            None => CrabState::Idle,
        };
        match existing {
            Some(i) => {
                let prev = self.crabs[i].clone();
                let c = Crab {
                    crab_id,
                    colony_id: home,
                    name,
                    role,
                    state: crab_state,
                    current_task_id: prev.current_task_id,
                    current_run_id: prev.current_run_id,
                    updated_at_ms: now,
                };
                self.crabs.set(i, c.clone());
                proof {
                    reveal_strlit("any");
                }
                Ok(c)
            },
            None => {
                let c = Crab {
                    crab_id,
                    colony_id: home,
                    name,
                    role,
                    state: crab_state,
                    current_task_id: None,
                    current_run_id: None,
                    updated_at_ms: now,
                };
                self.crabs.push(c.clone());
                Ok(c)
            },
        }
    }

    /// Creates an ad-hoc task with a random id (no workflow step) in a mission, queued unless a
    /// status is given. When a crab is named, that crab becomes busy with the
    /// task and the returned assignment is to be sent to it.
    pub fn create_task(
        &mut self,
        mission_id: String,
        title: String,
        assigned_crab_id: Option<String>,
        status: Option<TaskStatus>,
        now: u64,
    ) -> (r: Result<(Task, Option<Assignment>), ApiError>)
        requires
            old(self).wf(),
        ensures
            final(self).wf(),
            final(self).colonies == old(self).colonies,
            final(self).missions == old(self).missions,
            final(self).deps == old(self).deps,
            final(self).runs == old(self).runs,
            match r {
                Ok((t, a)) => {
                    &&& trimmed(title@).len() > 0
                    &&& has_mission(old(self).missions@, mission_id@)
                    &&& !has_task(old(self).tasks@, t.id@)
                    &&& t.mission_id == mission_id
                    &&& t.title == title
                    &&& t.assigned_crab_id == assigned_crab_id
                    &&& t.status == opt_or(status, TaskStatus::Queued)
                    &&& t.step_id is None && t.role is None && t.prompt is None && t.context is None
                    &&& t.created_at_ms == now && t.updated_at_ms == now
                    &&& final(self).tasks@ == old(self).tasks@.push(t)
                    &&& match assigned_crab_id {
                        None => a is None && final(self).crabs == old(self).crabs,
                        Some(c) => {
                            &&& a matches Some(a) && a.crab_id == c && a.payload.task_id == t.id
                                && a.payload.mission_id == mission_id && a.payload.title == title
                                && a.payload.desired_status == TaskStatus::Running
                            &&& if has_crab(old(self).crabs@, c@) {
                                exists|i: int|
                                    0 <= i < old(self).crabs@.len() && old(self).crabs@[i].crab_id@
                                        == c@ && final(self).crabs@ == old(self).crabs@.update(
                                        i,
                                        Crab {
                                            state: CrabState::Busy,
                                            current_task_id: Some(t.id),
                                            updated_at_ms: now,
                                            ..old(self).crabs@[i]
                                        },
                                    )
                            } else {
                                final(self).crabs == old(self).crabs
                            }
                        },
                    }
                },
                Err(e) => {
                    &&& *final(self) == *old(self)
                    &&& (e.kind == ErrorKind::BadRequest) == (trimmed(title@).len() == 0)
                    &&& (e.kind == ErrorKind::NotFound) == (trimmed(title@).len() > 0
                        && !has_mission(old(self).missions@, mission_id@))
                },
            },
    {
        let id = crate::trusted::new_uuid_text();
        self.create_task_with_id(id, mission_id, title, assigned_crab_id, status, now)
    }

    /// Creates an ad-hoc task with id `id` (no workflow step) in a mission, queued unless a
    /// status is given. When a crab is named, that crab becomes busy with the
    /// task and the returned assignment is to be sent to it.
    pub fn create_task_with_id(
        &mut self,
        id: String,
        mission_id: String,
        title: String,
        assigned_crab_id: Option<String>,
        status: Option<TaskStatus>,
        now: u64,
    ) -> (r: Result<(Task, Option<Assignment>), ApiError>)
        requires
            old(self).wf(),
        ensures
            final(self).wf(),
            final(self).colonies == old(self).colonies,
            final(self).missions == old(self).missions,
            final(self).deps == old(self).deps,
            final(self).runs == old(self).runs,
            match r {
                Ok((t, a)) => {
                    &&& trimmed(title@).len() > 0
                    &&& has_mission(old(self).missions@, mission_id@)
                    &&& !crate::store::id_in_use(*old(self), id@)
                    &&& t.id == id
                    &&& t.mission_id == mission_id
                    &&& t.title == title
                    &&& t.assigned_crab_id == assigned_crab_id
                    &&& t.status == opt_or(status, TaskStatus::Queued)
                    &&& t.step_id is None && t.role is None && t.prompt is None && t.context is None
                    &&& t.created_at_ms == now && t.updated_at_ms == now
                    &&& final(self).tasks@ == old(self).tasks@.push(t)
                    &&& match assigned_crab_id {
                        None => a is None && final(self).crabs == old(self).crabs,
                        Some(c) => {
                            &&& a matches Some(a) && a.crab_id == c && a.payload.task_id == t.id
                                && a.payload.mission_id == mission_id && a.payload.title == title
                                && a.payload.desired_status == TaskStatus::Running
                            &&& if has_crab(old(self).crabs@, c@) {
                                exists|i: int|
                                    0 <= i < old(self).crabs@.len() && old(self).crabs@[i].crab_id@
                                        == c@ && final(self).crabs@ == old(self).crabs@.update(
                                        i,
                                        Crab {
                                            state: CrabState::Busy,
                                            current_task_id: Some(t.id),
                                            updated_at_ms: now,
                                            ..old(self).crabs@[i]
                                        },
                                    )
                            } else {
                                final(self).crabs == old(self).crabs
                            }
                        },
                    }
                },
                Err(e) => {
                    &&& *final(self) == *old(self)
                    &&& (e.kind == ErrorKind::BadRequest) == (trimmed(title@).len() == 0)
                    &&& (e.kind == ErrorKind::NotFound) == (trimmed(title@).len() > 0
                        && !has_mission(old(self).missions@, mission_id@))
                    &&& (e.kind == ErrorKind::Internal) == (trimmed(title@).len() > 0 && has_mission(
                        old(self).missions@,
                        mission_id@,
                    ) && crate::store::id_in_use(*old(self), id@))
                },
            },
    {
        if trim(title.as_str()).unicode_len() == 0 {
            return Err(ApiError::bad_request("title is required"));
        }
        let mi = match self.find_mission(mission_id.as_str()) {
            Some(mi) => mi,
            None => return Err(ApiError::not_found("mission_id not found")),
        };
        if self.id_in_use(id.as_str()) {
            return Err(ApiError::internal("id is already in use"));
        }
        let task = Task {
            id,
            mission_id,
            title,
            assigned_crab_id: crate::model::clone_text(&assigned_crab_id),
            status: match status {
                Some(s) => s,
                None => TaskStatus::Queued,
            },
            step_id: None,
            role: None,
            prompt: None,
            context: None,
            created_at_ms: now,
            updated_at_ms: now,
        };
        self.tasks.push(task.clone());
        let assignment = match assigned_crab_id {
            None => None,
            Some(c) => {
                if let Some(ci) = self.find_crab(c.as_str()) {
                    self.crabs[ci].state = CrabState::Busy;
                    self.crabs[ci].current_task_id = Some(task.id.clone());
                    self.crabs[ci].updated_at_ms = now;
                }
                Some(
                    Assignment {
                        crab_id: c,
                        payload: TaskAssigned {
                            task_id: task.id.clone(),
                            mission_id: task.mission_id.clone(),
                            title: task.title.clone(),
                            mission_prompt: self.missions[mi].prompt.clone(),
                            desired_status: TaskStatus::Running,
                            step_id: None,
                            role: None,
                            prompt: None,
                            context: None,
                            worktree_path: None,
                        },
                    },
                )
            },
        };
        Ok((task, assignment))
    }

    /// Whether a task other than `t` of `t`'s mission is running.
    pub fn other_task_running(&self, t: usize) -> (r: bool)
        requires
            self.wf(),
            t < self.tasks@.len(),
        ensures
            r == other_running(self.tasks@, self.tasks@[t as int].id@),
    {
        let mut u: usize = 0;
        while u < self.tasks.len()
            invariant
                self.wf(),
                t < self.tasks@.len(),
                u <= self.tasks@.len(),
                forall|v: int|
                    0 <= v < u ==> !(v != t && self.tasks@[v].mission_id@ == self.tasks@[t as int].mission_id@
                        && self.tasks@[v].status == TaskStatus::Running),
            decreases self.tasks@.len() - u,
        {
            if u != t && self.tasks[u].status == TaskStatus::Running && text_eq(
                self.tasks[u].mission_id.as_str(),
                self.tasks[t].mission_id.as_str(),
            ) {
                return true;
            }
            u = u + 1;
        }
        proof {
            if other_running(self.tasks@, self.tasks@[t as int].id@) {
                let (a, b) = choose|a: int, b: int|
                    0 <= a < self.tasks@.len() && 0 <= b < self.tasks@.len() && a != b
                        && self.tasks@[a].id@ == self.tasks@[t as int].id@ && self.tasks@[b].mission_id@
                        == self.tasks@[a].mission_id@ && self.tasks@[b].status == TaskStatus::Running;
                assert(a == t);
            }
        }
        false
    }

    /// Starts a run of a task by a crab: the task becomes running and assigned
    /// to the crab, and the crab (if registered) busy with the task and run.
    /// A task cannot start while another task of its mission is running.
    pub fn start_run(
        &mut self,
        run_id: Option<String>,
        mission_id: String,
        task_id: String,
        crab_id: String,
        burrow_path: String,
        burrow_mode: BurrowMode,
        status: Option<RunStatus>,
        progress_message: Option<String>,
        now: u64,
    ) -> (r: Result<Run, ApiError>)
        requires
            old(self).wf(),
        ensures
            final(self).wf(),
            final(self).colonies == old(self).colonies,
            final(self).missions == old(self).missions,
            final(self).deps == old(self).deps,
            match r {
                Ok(run) => {
                    &&& trimmed(burrow_path@).len() > 0
                    &&& has_mission(old(self).missions@, mission_id@)
                    &&& !has_run(old(self).runs@, run.id@)
                    &&& (run_id matches Some(x) ==> run.id == x)
                    &&& run.mission_id == mission_id && run.task_id == task_id && run.crab_id == crab_id
                    &&& run.status == opt_or(status, RunStatus::Running)
                    &&& run.burrow == (Burrow { path: burrow_path, mode: burrow_mode, base_branch: None })
                    &&& run.progress_message@ == (match progress_message {
                        Some(p) => p@,
                        None => "run started"@,
                    })
                    &&& run.summary is None
                    &&& run.metrics == RunMetrics::default_spec()
                    &&& run.started_at_ms == now && run.updated_at_ms == now
                    &&& run.completed_at_ms is None
                    &&& !other_running(old(self).tasks@, task_id@)
                    &&& (one_running_per_mission(old(self).tasks@) ==> one_running_per_mission(final(self).tasks@))
                    &&& final(self).runs@ == old(self).runs@.push(run)
                    &&& exists|i: int|
                        0 <= i < old(self).tasks@.len() && old(self).tasks@[i].id@ == task_id@
                            && final(self).tasks@ == old(self).tasks@.update(
                            i,
                            Task {
                                assigned_crab_id: Some(crab_id),
                                status: TaskStatus::Running,
                                updated_at_ms: now,
                                ..old(self).tasks@[i]
                            },
                        )
                    &&& if has_crab(old(self).crabs@, crab_id@) {
                        exists|j: int|
                            0 <= j < old(self).crabs@.len() && old(self).crabs@[j].crab_id@ == crab_id@
                                && final(self).crabs@ == old(self).crabs@.update(
                                j,
                                Crab {
                                    state: CrabState::Busy,
                                    current_task_id: Some(task_id),
                                    current_run_id: Some(run.id),
                                    updated_at_ms: now,
                                    ..old(self).crabs@[j]
                                },
                            )
                    } else {
                        final(self).crabs == old(self).crabs
                    }
                },
                Err(e) => {
                    &&& *final(self) == *old(self)
                    &&& (e.kind == ErrorKind::BadRequest) == (trimmed(burrow_path@).len() == 0 || (
                    has_mission(old(self).missions@, mission_id@) && has_task(
                        old(self).tasks@,
                        task_id@,
                    ) && (run_id_taken(old(self).runs@, run_id) || other_running(old(self).tasks@, task_id@))))
                    &&& e.kind == ErrorKind::Internal ==> run_id is None
                    &&& (e.kind == ErrorKind::NotFound) == (trimmed(burrow_path@).len() > 0 && (
                    !has_mission(old(self).missions@, mission_id@) || !has_task(
                        old(self).tasks@,
                        task_id@,
                    )))
                },
            },
    {
        if trim(burrow_path.as_str()).unicode_len() == 0 {
            return Err(ApiError::bad_request("burrow_path is required"));
        }
        if self.find_mission(mission_id.as_str()).is_none() {
            return Err(ApiError::not_found("mission_id not found"));
        }
        let ti = match self.find_task(task_id.as_str()) {
            Some(ti) => ti,
            None => return Err(ApiError::not_found("task_id not found")),
        };
        if self.other_task_running(ti) {
            return Err(ApiError::bad_request("another task of this mission is running"));
        }
        let id = match run_id {
            Some(x) => {
                if self.find_run(x.as_str()).is_some() {
                    return Err(ApiError::bad_request("failed to start run: run_id already exists"));
                }
                x
            },
            None => match self.fresh_id() {
                Ok(x) => x,
                Err(e) => return Err(e),
            },
        };
        let run = Run {
            id,
            mission_id,
            task_id: task_id.clone(),
            crab_id: crab_id.clone(),
            status: match status {
                Some(s) => s,
                None => RunStatus::Running,
            },
            burrow: Burrow { path: burrow_path, mode: burrow_mode, base_branch: None },
            progress_message: match progress_message {
                Some(p) => p,
                None => "run started".to_string(),
            },
            summary: None,
            metrics: RunMetrics {
                prompt_tokens: 0,
                completion_tokens: 0,
                total_tokens: 0,
                first_token_ms: None,
                llm_duration_ms: None,
                execution_duration_ms: None,
                end_to_end_ms: None,
            },
            started_at_ms: now,
            updated_at_ms: now,
            completed_at_ms: None,
        };
        self.runs.push(run.clone());
        self.tasks[ti].assigned_crab_id = Some(crab_id.clone());
        self.tasks[ti].status = TaskStatus::Running;
        self.tasks[ti].updated_at_ms = now;
        if let Some(ci) = self.find_crab(crab_id.as_str()) {
            self.crabs[ci].state = CrabState::Busy;
            self.crabs[ci].current_task_id = Some(task_id);
            self.crabs[ci].current_run_id = Some(run.id.clone());
            self.crabs[ci].updated_at_ms = now;
        }
        Ok(run)
    }

    /// Patches a run's status, progress message and counters; a task whose run
    /// reports running or blocked follows that status, and a crab whose run
    /// reports running is busy with it. Finishing a run (completed or failed)
    /// is refused here: it goes through run completion, which records the
    /// completion time and runs the cascade.
    pub fn update_run(
        &mut self,
        run_id: &str,
        status: Option<RunStatus>,
        progress_message: Option<String>,
        token_usage: Option<TokenUsagePatch>,
        timing: Option<TimingPatch>,
        now: u64,
    ) -> (r: Result<Run, ApiError>)
        requires
            old(self).wf(),
        ensures
            final(self).wf(),
            final(self).colonies == old(self).colonies,
            final(self).missions == old(self).missions,
            final(self).deps == old(self).deps,
            match r {
                Ok(run) => exists|i: int|
                    #![trigger old(self).runs@[i]]
                    {
                        let prev = old(self).runs@[i];
                        &&& 0 <= i < old(self).runs@.len()
                        &&& prev.id@ == run_id@
                        &&& run == Run {
                            status: opt_or(status, prev.status),
                            progress_message: opt_or(progress_message, prev.progress_message),
                            metrics: merged_metrics(prev.metrics, token_usage, timing),
                            updated_at_ms: now,
                            ..prev
                        }
                        &&& final(self).runs@ == old(self).runs@.update(i, run)
                        &&& task_follows_run(old(self).tasks@, final(self).tasks@, prev.task_id@, run.status, now)
                        &&& if run.status == RunStatus::Running && has_crab(old(self).crabs@, prev.crab_id@) {
                            exists|j: int|
                                0 <= j < old(self).crabs@.len() && old(self).crabs@[j].crab_id@
                                    == prev.crab_id@ && final(self).crabs@ == old(self).crabs@.update(
                                    j,
                                    Crab {
                                        state: CrabState::Busy,
                                        current_task_id: Some(prev.task_id),
                                        current_run_id: Some(prev.id),
                                        updated_at_ms: now,
                                        ..old(self).crabs@[j]
                                    },
                                )
                        } else {
                            final(self).crabs == old(self).crabs
                        }
                    },
                Err(e) => {
                    &&& *final(self) == *old(self)
                    &&& (e.kind == ErrorKind::BadRequest) == terminal_request(status)
                    &&& (e.kind == ErrorKind::NotFound) == (!terminal_request(status) && !has_run(
                        old(self).runs@,
                        run_id@,
                    ))
                    &&& e.kind != ErrorKind::Internal
                },
            },
    {
        if let Some(st) = status {
            if st == RunStatus::Completed || st == RunStatus::Failed {
                return Err(ApiError::bad_request("use run completion to finish a run"));
            }
        }
        let ri = match self.find_run(run_id) {
            Some(ri) => ri,
            None => return Err(ApiError::not_found("run_id not found")),
        };
        let prev = self.runs[ri].clone();
        let new_status = match status {
            Some(s) => s,
            None => prev.status,
        };
        let run = Run {
            status: new_status,
            progress_message: match progress_message {
                Some(p) => p,
                None => prev.progress_message.clone(),
            },
            metrics: merge_metrics(prev.metrics, token_usage, timing),
            updated_at_ms: now,
            ..prev
        };
        self.runs.set(ri, run.clone());
        let target = match new_status {
            RunStatus::Running => Some(TaskStatus::Running),
            RunStatus::Blocked => Some(TaskStatus::Blocked),
            RunStatus::Completed => Some(TaskStatus::Completed),
            RunStatus::Failed => Some(TaskStatus::Failed),
            RunStatus::Queued => None,
        };
        if let Some(ts) = target {
            if let Some(ti) = self.find_task(run.task_id.as_str()) {
                self.tasks[ti].status = ts;
                self.tasks[ti].updated_at_ms = now;
                proof {
                    assert(self.tasks@ =~= old(self).tasks@.update(
                        ti as int,
                        task_with_status(old(self).tasks@[ti as int], ts, now),
                    ));
                }
            }
        }
        if new_status == RunStatus::Running {
            if let Some(ci) = self.find_crab(run.crab_id.as_str()) {
                self.crabs[ci].state = CrabState::Busy;
                self.crabs[ci].current_task_id = Some(run.task_id.clone());
                self.crabs[ci].current_run_id = Some(run.id.clone());
                self.crabs[ci].updated_at_ms = now;
            }
        }
        proof {
            assert(self.runs@ == old(self).runs@.update(ri as int, run));
            assert(task_follows_run(old(self).tasks@, self.tasks@, prev.task_id@, run.status, now));
        }
        Ok(run)
    }

    /// Finishes a run as completed or failed with its summary; its task takes
    /// the same status and its crab becomes idle with no current task or run.
    /// A run that already finished cannot be finished again.
    pub fn finish_run(
        &mut self,
        run_id: &str,
        status: RunStatus,
        summary: Option<String>,
        token_usage: Option<TokenUsagePatch>,
        timing: Option<TimingPatch>,
        now: u64,
    ) -> (r: Result<Run, ApiError>)
        requires
            old(self).wf(),
        ensures
            final(self).wf(),
            final(self).colonies == old(self).colonies,
            final(self).missions == old(self).missions,
            final(self).deps == old(self).deps,
            match r {
                Ok(run) => finished_as(*old(self), *final(self), run, run_id@, status, summary, token_usage, timing, now),
                Err(e) => {
                    &&& *final(self) == *old(self)
                    &&& (e.kind == ErrorKind::NotFound) == ((status == RunStatus::Completed || status
                        == RunStatus::Failed) && !has_run(old(self).runs@, run_id@))
                    &&& (e.kind == ErrorKind::BadRequest) == (!(status == RunStatus::Completed
                        || status == RunStatus::Failed) || run_finished(old(self).runs@, run_id@))
                    &&& e.kind != ErrorKind::Internal
                },
            },
    {
        if !(status == RunStatus::Completed || status == RunStatus::Failed) {
            return Err(ApiError::bad_request("status must be completed or failed"));
        }
        let ri = match self.find_run(run_id) {
            Some(ri) => ri,
            None => return Err(ApiError::not_found("run_id not found")),
        };
        let prev = self.runs[ri].clone();
        if prev.status == RunStatus::Completed || prev.status == RunStatus::Failed {
            return Err(ApiError::bad_request("run is already finished"));
        }
        let run = Run {
            status: status,
            summary: summary,
            metrics: merge_metrics(prev.metrics, token_usage, timing),
            completed_at_ms: Some(now),
            updated_at_ms: now,
            ..prev
        };
        self.runs.set(ri, run.clone());
        let ts = if status == RunStatus::Completed {
            TaskStatus::Completed
        } else {
            TaskStatus::Failed
        };
        if let Some(ti) = self.find_task(run.task_id.as_str()) {
            self.tasks[ti].status = ts;
            self.tasks[ti].updated_at_ms = now;
            proof {
                assert(self.tasks@ =~= old(self).tasks@.update(
                    ti as int,
                    task_with_status(old(self).tasks@[ti as int], ts, now),
                ));
            }
        }
        if let Some(ci) = self.find_crab(run.crab_id.as_str()) {
            self.crabs[ci].state = CrabState::Idle;
            self.crabs[ci].current_task_id = None;
            self.crabs[ci].current_run_id = None;
            self.crabs[ci].updated_at_ms = now;
            proof {
                assert(self.crabs@ =~= old(self).crabs@.update(
                    ci as int,
                    Crab {
                        state: CrabState::Idle,
                        current_task_id: None,
                        current_run_id: None,
                        updated_at_ms: now,
                        ..old(self).crabs@[ci as int]
                    },
                ));
            }
        }
        proof {
            assert(self.runs@ == old(self).runs@.update(ri as int, run));
            assert(task_follows_run(old(self).tasks@, self.tasks@, prev.task_id@, status, now));
            assert(old(self).runs@[ri as int] == prev);
            assert(finished_as(*old(self), *self, run, run_id@, status, run.summary, token_usage, timing, now));
        }
        Ok(run)
    }
}

/// Another task of the mission of task `task_id` is running.
pub open spec fn other_running(tasks: Seq<Task>, task_id: Seq<char>) -> bool {
    exists|a: int, b: int|
        0 <= a < tasks.len() && 0 <= b < tasks.len() && a != b && tasks[a].id@ == task_id
            && tasks[b].mission_id@ == tasks[a].mission_id@ && tasks[b].status == TaskStatus::Running
}

/// No mission has two running tasks.
pub open spec fn one_running_per_mission(tasks: Seq<Task>) -> bool {
    forall|a: int, b: int|
        0 <= a < tasks.len() && 0 <= b < tasks.len() && a != b && tasks[a].mission_id@
            == tasks[b].mission_id@ && tasks[a].status == TaskStatus::Running ==> tasks[b].status
            != TaskStatus::Running
}

/// `run` is run `run_id` finished with `status` and `summary`: it replaced the
/// unfinished run in `before`, its task took the same status and its crab, if
/// registered, became idle with no current task or run.
pub open spec fn finished_as(
    before: Store,
    after: Store,
    run: Run,
    run_id: Seq<char>,
    status: RunStatus,
    summary: Option<String>,
    token_usage: Option<TokenUsagePatch>,
    timing: Option<TimingPatch>,
    now: u64,
) -> bool {
    exists|i: int|
        #![trigger before.runs@[i]]
        {
            let prev = before.runs@[i];
            &&& 0 <= i < before.runs@.len()
            &&& prev.id@ == run_id
            &&& status == RunStatus::Completed || status == RunStatus::Failed
            &&& prev.status != RunStatus::Completed && prev.status != RunStatus::Failed
            &&& run == Run {
                status: status,
                summary: summary,
                metrics: merged_metrics(prev.metrics, token_usage, timing),
                completed_at_ms: Some(now),
                updated_at_ms: now,
                ..prev
            }
            &&& after.runs@ == before.runs@.update(i, run)
            &&& task_follows_run(before.tasks@, after.tasks@, prev.task_id@, status, now)
            &&& if has_crab(before.crabs@, prev.crab_id@) {
                exists|j: int|
                    0 <= j < before.crabs@.len() && before.crabs@[j].crab_id@
                        == prev.crab_id@ && after.crabs@ == before.crabs@.update(
                        j,
                        Crab {
                            state: CrabState::Idle,
                            current_task_id: None,
                            current_run_id: None,
                            updated_at_ms: now,
                            ..before.crabs@[j]
                        },
                    )
            } else {
                after.crabs == before.crabs
            }
        }
}

/// An update that asks to finish the run.
pub open spec fn terminal_request(status: Option<RunStatus>) -> bool {
    status == Some(RunStatus::Completed) || status == Some(RunStatus::Failed)
}

/// The run with id `run_id` exists and has finished.
pub open spec fn run_finished(runs: Seq<Run>, run_id: Seq<char>) -> bool {
    exists|i: int|
        0 <= i < runs.len() && runs[i].id@ == run_id && (runs[i].status == RunStatus::Completed
            || runs[i].status == RunStatus::Failed)
}

/// The task status a run status carries over to, if any.
pub open spec fn task_status_for_run(s: RunStatus) -> Option<TaskStatus> {
    match s {
        RunStatus::Running => Some(TaskStatus::Running),
        RunStatus::Blocked => Some(TaskStatus::Blocked),
        RunStatus::Completed => Some(TaskStatus::Completed),
        RunStatus::Failed => Some(TaskStatus::Failed),
        RunStatus::Queued => None,
    }
}

/// The task `task_id` takes the status its run reports (if that status carries
/// over and the task exists); no other task changes.
pub open spec fn task_follows_run(
    before: Seq<Task>,
    after: Seq<Task>,
    task_id: Seq<char>,
    s: RunStatus,
    now: u64,
) -> bool {
    match task_status_for_run(s) {
        Some(ts) => if has_task(before, task_id) {
            exists|i: int|
                0 <= i < before.len() && before[i].id@ == task_id && after == before.update(
                    i,
                    task_with_status(before[i], ts, now),
                )
        } else {
            after == before
        },
        None => after == before,
    }
}

impl Store {
    /// A worker's session ended: the crab goes offline with no current task
    /// or run. Returns the updated crab, if it is registered.
    pub fn mark_offline(&mut self, crab_id: &str, now: u64) -> (r: Option<Crab>)
        requires
            old(self).wf(),
        ensures
            final(self).wf(),
            final(self).colonies == old(self).colonies,
            final(self).missions == old(self).missions,
            final(self).tasks == old(self).tasks,
            final(self).deps == old(self).deps,
            final(self).runs == old(self).runs,
            match r {
                Some(c) => exists|i: int|
                    0 <= i < old(self).crabs@.len() && old(self).crabs@[i].crab_id@ == crab_id@ && c == (
                    Crab {
                        state: CrabState::Offline,
                        current_task_id: None,
                        current_run_id: None,
                        updated_at_ms: now,
                        ..old(self).crabs@[i]
                    }) && final(self).crabs@ == old(self).crabs@.update(i, c),
                None => !has_crab(old(self).crabs@, crab_id@) && final(self).crabs == old(self).crabs,
            },
    {
        match self.find_crab(crab_id) {
            None => None,
            Some(i) => {
                self.crabs[i].state = CrabState::Offline;
                self.crabs[i].current_task_id = None;
                self.crabs[i].current_run_id = None;
                self.crabs[i].updated_at_ms = now;
                proof {
                    assert(self.crabs@ =~= old(self).crabs@.update(
                        i as int,
                        Crab {
                            state: CrabState::Offline,
                            current_task_id: None,
                            current_run_id: None,
                            updated_at_ms: now,
                            ..old(self).crabs@[i as int]
                        },
                    ));
                }
                Some(self.crabs[i].clone())
            },
        }
    }

    /// A worker's heartbeat: the crab's update time moves to `now`.
    pub fn touch_crab(&mut self, crab_id: &str, now: u64) -> (r: Option<Crab>)
        requires
            old(self).wf(),
        ensures
            final(self).wf(),
            final(self).colonies == old(self).colonies,
            final(self).missions == old(self).missions,
            final(self).tasks == old(self).tasks,
            final(self).deps == old(self).deps,
            final(self).runs == old(self).runs,
            match r {
                Some(c) => exists|i: int|
                    0 <= i < old(self).crabs@.len() && old(self).crabs@[i].crab_id@ == crab_id@ && c == (
                    Crab { updated_at_ms: now, ..old(self).crabs@[i] }) && final(self).crabs@
                        == old(self).crabs@.update(i, c),
                None => !has_crab(old(self).crabs@, crab_id@) && final(self).crabs == old(self).crabs,
            },
    {
        match self.find_crab(crab_id) {
            None => None,
            Some(i) => {
                self.crabs[i].updated_at_ms = now;
                proof {
                    assert(self.crabs@ =~= old(self).crabs@.update(
                        i as int,
                        Crab { updated_at_ms: now, ..old(self).crabs@[i as int] },
                    ));
                }
                Some(self.crabs[i].clone())
            },
        }
    }

    /// Issue numbers already queued as missions of colony `colony_id`.
    pub fn queued_issue_numbers(&self, colony_id: &str) -> (r: Vec<i64>)
        ensures
            forall|n: i64| r@.contains(n) <==> exists|i: int|
                0 <= i < self.missions@.len() && self.missions@[i].colony_id@ == colony_id@
                    && self.missions@[i].github_issue_number == Some(n),
    {
        let mut out: Vec<i64> = Vec::new();
        let mut i: usize = 0;
        while i < self.missions.len()
            invariant
                i <= self.missions@.len(),
                forall|n: i64| out@.contains(n) <==> exists|j: int|
                    0 <= j < i && self.missions@[j].colony_id@ == colony_id@
                        && self.missions@[j].github_issue_number == Some(n),
            decreases self.missions@.len() - i,
        {
            let ghost prev = out@;
            if let Some(n) = self.missions[i].github_issue_number {
                if text_eq(self.missions[i].colony_id.as_str(), colony_id) {
                    out.push(n);
                }
            }
            proof {
                assert forall|x: i64| out@.contains(x) <==> exists|j: int|
                    0 <= j < i + 1 && self.missions@[j].colony_id@ == colony_id@
                        && self.missions@[j].github_issue_number == Some(x) by {
                    if out@.contains(x) {
                        let w = choose|w: int| 0 <= w < out@.len() && out@[w] == x;
                        if w < prev.len() {
                            assert(prev[w] == x);
                            assert(prev.contains(x));
                        } else {
                            assert(self.missions@[i as int].github_issue_number == Some(x));
                        }
                    }
                    if exists|j: int|
                        0 <= j < i + 1 && self.missions@[j].colony_id@ == colony_id@
                            && self.missions@[j].github_issue_number == Some(x) {
                        let j = choose|j: int|
                            0 <= j < i + 1 && self.missions@[j].colony_id@ == colony_id@
                                && self.missions@[j].github_issue_number == Some(x);
                        if j < i {
                            assert(prev.contains(x));
                            let w = choose|w: int| 0 <= w < prev.len() && prev[w] == x;
                            assert(out@[w] == x);
                        } else {
                            assert(out@[out@.len() - 1] == x);
                        }
                    }
                }
            }
            i = i + 1;
        }
        out
    }
}

} // verus!

//! The transactional operations of the control plane: each validates, mutates,
//! runs the cascade and activation it triggers, and ends with a scheduler
//! tick whose assignments are sent after commit.

use vstd::prelude::*;
use crate::metrics::{TimingPatch, TokenUsagePatch};
use crate::model::{ApiError, Crab, ErrorKind, Mission, Run};
use crate::protocol::Assignment;
use crate::records::{run_finished, upsert_outcome};
use crate::schedule::tick_done;
use crate::status::{CrabState, MissionStatus, RunStatus};
use crate::store::{has_colony, has_mission, has_run, Store};
use crate::text::{trim, trimmed};
use crate::workflow::{expanded, worktree_of, worktree_path, WorkflowRegistry};

verus! {

/// `after` is `before`, with its missions replaced by those of `after`, once
/// the `k`-th manifest of `registry` was expanded with task ids `ids`.
pub open spec fn expanded_by(
    before: Store,
    after: Store,
    registry: WorkflowRegistry,
    k: int,
    ids: Seq<String>,
    mission_id: Seq<char>,
    prompt: Seq<char>,
    now: u64,
) -> bool {
    expanded(
        Store { missions: after.missions, ..before },
        after,
        registry,
        registry.manifests@[k].steps@,
        ids,
        mission_id,
        prompt,
        now,
    )
}

/// Some intermediate store is `before` with the crab registered, and `after`
/// is that store after one scheduler tick that produced `out`.
pub open spec fn registered_then_ticked(
    before: Store,
    after: Store,
    c: Crab,
    out: Seq<Assignment>,
    crab_id: Seq<char>,
    colony_id: Seq<char>,
    name: String,
    role: String,
    state: Option<CrabState>,
    now: u64,
) -> bool {
    exists|mid: Store|
        #![trigger tick_done(mid, after, out, now)]
        upsert_outcome(before, mid, Ok(c), crab_id, colony_id, name, role, state, now) && tick_done(
            mid,
            after,
            out,
            now,
        )
}

/// Some intermediate store is `before` with mission `m` added (and, with a
/// workflow, the named manifest expanded for it), and `after` is that store
/// after one scheduler tick that produced `out`.
pub open spec fn created_then_ticked(
    before: Store,
    after: Store,
    registry: WorkflowRegistry,
    m: Mission,
    out: Seq<Assignment>,
    workflow: Option<String>,
    prompt: Seq<char>,
    now: u64,
) -> bool {
    exists|mid: Store|
        #![trigger tick_done(mid, after, out, now)]
        tick_done(mid, after, out, now) && mid.missions@ == before.missions@.push(m)
            && match workflow {
            None => mid.tasks == before.tasks && mid.deps == before.deps,
            Some(w) => exists|k: int, ids: Seq<String>|
                #![trigger expanded_by(before, mid, registry, k, ids, m.id@, prompt, now)]
                0 <= k < registry.manifests@.len() && registry.manifests@[k].workflow.name@
                    == w@ && expanded_by(before, mid, registry, k, ids, m.id@, prompt, now),
        }
}

impl Store {
    /// Registers or updates a crab, then schedules: a new idle crab may take
    /// queued work at once.
    pub fn register_crab(
        &mut self,
        crab_id: String,
        colony_id: String,
        name: String,
        role: String,
        state: Option<CrabState>,
        now: u64,
    ) -> (r: Result<(Crab, Vec<Assignment>), ApiError>)
        requires
            old(self).wf(),
        ensures
            final(self).wf(),
            match r {
                Ok((c, a)) => registered_then_ticked(*old(self), *final(self), c, a@, crab_id@, colony_id@, name, role, state, now),
                Err(e) => upsert_outcome(*old(self), *final(self), Err(e), crab_id@, colony_id@, name, role, state, now),
            },
    {
        let ghost cid = crab_id@;
        let ghost col = colony_id@;
        let ghost nm = name;
        let ghost rl = role;
        let crab = match self.upsert_crab(crab_id, colony_id, name, role, state, now) {
            Ok(c) => c,
            Err(e) => return Err(e),
        };
        let ghost mid = *self;
        let assignments = self.schedule_tick(now);
        proof {
            assert(upsert_outcome(*old(self), mid, Ok(crab), cid, col, nm, rl, state, now)
                && tick_done(mid, *self, assignments@, now));
        }
        Ok((crab, assignments))
    }

    /// Creates a mission with random ids in a colony. With a workflow, the mission starts
    /// running at once in its own working directory and the workflow's tasks
    /// are created. Ends with a scheduler tick.
    pub fn create_mission(
        &mut self,
        registry: &WorkflowRegistry,
        colony_id: String,
        prompt: String,
        workflow: Option<String>,
        now: u64,
    ) -> (r: Result<(Mission, Vec<Assignment>), ApiError>)
        requires
            old(self).wf(),
        ensures
            final(self).wf(),
            match r {
                Ok((m, a)) => {
                    &&& trimmed(prompt@).len() > 0
                    &&& trimmed(colony_id@).len() > 0
                    &&& has_colony(old(self).colonies@, colony_id@)
                    &&& !has_mission(old(self).missions@, m.id@)
                    &&& m.colony_id == colony_id
                    &&& m.prompt == prompt
                    &&& m.workflow_name == workflow
                    &&& m.status == (if workflow is Some {
                        MissionStatus::Running
                    } else {
                        MissionStatus::Pending
                    })
                    &&& (match m.worktree_path {
                        Some(w) => workflow is Some && w@ == worktree_of(m.id@),
                        None => workflow is None,
                    })
                    &&& m.queue_position is None
                    &&& m.github_issue_number is None
                    &&& m.github_pr_number is None
                    &&& m.created_at_ms == now
                    &&& final(self).missions@ == old(self).missions@.push(m)
                    &&& created_then_ticked(*old(self), *final(self), *registry, m, a@, workflow, prompt@, now)
                },
                Err(e) => {
                    &&& (e.kind == ErrorKind::BadRequest) == (trimmed(prompt@).len() == 0
                        || trimmed(colony_id@).len() == 0)
                    &&& (e.kind == ErrorKind::NotFound) == (trimmed(prompt@).len() > 0
                        && trimmed(colony_id@).len() > 0 && (!has_colony(old(self).colonies@, colony_id@)
                        || (workflow matches Some(w) && !registry.has_name(w@))))
                    &&& e.kind != ErrorKind::Internal ==> *final(self) == *old(self)
                    &&& crate::store::same_contents(*final(self), *old(self))
                },
            },
    {
        let n: usize = match &workflow {
            Some(w) => match registry.get(w.as_str()) {
                Some(m) => m.steps.len(),
                None => 0,
            },
            None => 0,
        };
        let id = crate::trusted::new_uuid_text();
        let mut task_ids: Vec<String> = Vec::new();
        let mut k: usize = 0;
        while k < n
            decreases n - k,
        {
            task_ids.push(crate::trusted::new_uuid_text());
            k = k + 1;
        }
        self.create_mission_with_ids(registry, id, task_ids, colony_id, prompt, workflow, now)
    }

    /// Creates mission `id` in a colony. With a workflow, the mission starts
    /// running at once in its own working directory and the workflow's tasks
    /// are created with ids `task_ids`. Ends with a scheduler tick. Fails with
    /// an internal error, changing nothing, exactly when the request is valid
    /// but `id` is in use or `task_ids` cannot name the workflow's tasks.
    pub fn create_mission_with_ids(
        &mut self,
        registry: &WorkflowRegistry,
        id: String,
        task_ids: Vec<String>,
        colony_id: String,
        prompt: String,
        workflow: Option<String>,
        now: u64,
    ) -> (r: Result<(Mission, Vec<Assignment>), ApiError>)
        requires
            old(self).wf(),
        ensures
            final(self).wf(),
            match r {
                Ok((m, a)) => {
                    &&& trimmed(prompt@).len() > 0
                    &&& trimmed(colony_id@).len() > 0
                    &&& has_colony(old(self).colonies@, colony_id@)
                    &&& !has_mission(old(self).missions@, m.id@)
                    &&& m.id == id
                    &&& m.colony_id == colony_id
                    &&& m.prompt == prompt
                    &&& m.workflow_name == workflow
                    &&& m.status == (if workflow is Some {
                        MissionStatus::Running
                    } else {
                        MissionStatus::Pending
                    })
                    &&& (match m.worktree_path {
                        Some(w) => workflow is Some && w@ == worktree_of(m.id@),
                        None => workflow is None,
                    })
                    &&& m.queue_position is None
                    &&& m.github_issue_number is None
                    &&& m.github_pr_number is None
                    &&& m.created_at_ms == now
                    &&& final(self).missions@ == old(self).missions@.push(m)
                    &&& created_then_ticked(*old(self), *final(self), *registry, m, a@, workflow, prompt@, now)
                },
                Err(e) => {
                    &&& (e.kind == ErrorKind::BadRequest) == (trimmed(prompt@).len() == 0
                        || trimmed(colony_id@).len() == 0)
                    &&& (e.kind == ErrorKind::NotFound) == (trimmed(prompt@).len() > 0
                        && trimmed(colony_id@).len() > 0 && (!has_colony(old(self).colonies@, colony_id@)
                        || (workflow matches Some(w) && !registry.has_name(w@))))
                    &&& e.kind != ErrorKind::Internal ==> *final(self) == *old(self)
                    &&& crate::store::same_contents(*final(self), *old(self))
                    &&& (e.kind == ErrorKind::Internal) == (trimmed(prompt@).len() > 0
                        && trimmed(colony_id@).len() > 0 && has_colony(old(self).colonies@, colony_id@)
                        && !(workflow matches Some(w) && !registry.has_name(w@)) && !mission_ids_ok(
                        *old(self),
                        *registry,
                        workflow,
                        id@,
                        task_ids@,
                    ))
                },
            },
    {
        if trim(prompt.as_str()).unicode_len() == 0 {
            return Err(ApiError::bad_request("prompt is required"));
        }
        if trim(colony_id.as_str()).unicode_len() == 0 {
            return Err(ApiError::bad_request("colony_id is required"));
        }
        if self.find_colony(colony_id.as_str()).is_none() {
            return Err(ApiError::not_found("colony_id not found"));
        }
        let manifest = match &workflow {
            Some(w) => match registry.get(w.as_str()) {
                Some(m) => Some(m),
                None => return Err(ApiError::not_found("workflow not found")),
            },
            None => None,
        };
        if self.id_in_use(id.as_str()) {
            return Err(ApiError::internal("id is already in use"));
        }
        proof {
            if let Some(m) = manifest {
                let k0 = choose|k: int| crate::workflow::first_named(*registry, workflow->0@, k) && registry.manifests@[k] == *m;
                assert forall|k: int| crate::workflow::first_named(*registry, workflow->0@, k) implies registry.manifests@[k]
                    == *m by {
                    if k < k0 {
                    } else if k0 < k {
                    }
                }
            }
        }
        let running = workflow.is_some();
        let mission = Mission {
            id: id.clone(),
            colony_id,
            prompt: prompt.clone(),
            workflow_name: workflow,
            status: if running {
                MissionStatus::Running
            } else {
                MissionStatus::Pending
            },
            worktree_path: if running {
                Some(worktree_path(id.as_str()))
            } else {
                None
            },
            queue_position: None,
            github_issue_number: None,
            github_pr_number: None,
            created_at_ms: now,
        };
        self.missions.push(mission.clone());
        let ghost pushed = *self;
        let ghost mut used_ids: Seq<String> = Seq::empty();
        if let Some(m) = manifest {
            match self.expand_workflow_with_ids(registry, m, id.as_str(), prompt.as_str(), task_ids, now) {
                Ok(ids) => {
                    proof {
                        used_ids = ids@;
                    }
                },
                Err(e) => {
                    self.missions.pop();
                    proof {
                        assert(self.missions@ =~= old(self).missions@);
                    }
                    return Err(e);
                },
            }
        }
        let ghost mid = *self;
        let assignments = self.schedule_tick(now);
        proof {
            assert(tick_done(mid, *self, assignments@, now));
            if let Some(m) = manifest {
                let k = choose|k: int| 0 <= k < registry.manifests@.len() && registry.manifests@[k] == *m;
                assert(pushed == Store { missions: mid.missions, ..*old(self) });
                assert(expanded_by(*old(self), mid, *registry, k, used_ids, mission.id@, prompt@, now));
            }
            assert(self.missions@ == old(self).missions@.push(mission));
            assert(mid.missions@ == old(self).missions@.push(mission));
            assert(!has_mission(old(self).missions@, mission.id@));
        }
        Ok((mission, assignments))
    }
}

/// The ids chosen for a new mission fit: `id` is unused and, with a known
/// workflow, `task_ids` can name the tasks of its first manifest.
pub open spec fn mission_ids_ok(
    before: Store,
    registry: WorkflowRegistry,
    workflow: Option<String>,
    id: Seq<char>,
    task_ids: Seq<String>,
) -> bool {
    &&& !crate::store::id_in_use(before, id)
    &&& match workflow {
        Some(w) => forall|k: int|
            crate::workflow::first_named(registry, w@, k) ==> crate::expand::ids_usable(
                before.tasks@,
                task_ids,
                registry.manifests@[k].steps@.len() as int,
            ),
        None => true,
    }
}

/// From `before`, finishing `run` led to `m1` (see `finished_as`), the cascade for its task led
/// to some `m2`, and one scheduler tick from `m2` to `after` produced `out`.
pub open spec fn cascaded_then_ticked(
    before: Store,
    after: Store,
    registry: WorkflowRegistry,
    run: Run,
    run_id: Seq<char>,
    status: RunStatus,
    summary: Option<String>,
    token_usage: Option<TokenUsagePatch>,
    timing: Option<TimingPatch>,
    out: Seq<Assignment>,
    now: u64,
) -> bool {
    exists|m1: Store, m2: Store|
        #![trigger crate::flow::cascade_outcome(m1, m2, registry, run.mission_id@, run.task_id@, now, true)]
        crate::records::finished_as(before, m1, run, run_id, status, summary, token_usage, timing, now)
            && crate::flow::cascade_outcome(
            m1,
            m2,
            registry,
            run.mission_id@,
            run.task_id@,
            now,
            true,
        ) && tick_done(m2, after, out, now)
}

/// Finishing run `run_id` led from `before` to some `m1` (see
/// `finished_as`), and the cascade for its task then failed from `m1` to
/// `after` as `cascade_outcome` describes.
pub open spec fn completion_failed(
    before: Store,
    after: Store,
    registry: WorkflowRegistry,
    run_id: Seq<char>,
    status: RunStatus,
    summary: Option<String>,
    token_usage: Option<TokenUsagePatch>,
    timing: Option<TimingPatch>,
    now: u64,
) -> bool {
    exists|run: Run, m1: Store|
        #![trigger crate::flow::cascade_outcome(m1, after, registry, run.mission_id@, run.task_id@, now, false)]
        crate::records::finished_as(before, m1, run, run_id, status, summary, token_usage, timing, now)
            && crate::flow::cascade_outcome(m1, after, registry, run.mission_id@, run.task_id@, now, false)
}

/// Run `run_id` belongs to a workflow task: only there can the cascade draw ids.
pub open spec fn run_of_workflow_task(runs: Seq<Run>, tasks: Seq<crate::model::Task>, run_id: Seq<char>) -> bool {
    exists|i: int| 0 <= i < runs.len() && runs[i].id@ == run_id && crate::flow::is_workflow_task(tasks, runs[i].task_id@)
}

/// Some run in `runs` is `run`.
pub open spec fn holds_run(runs: Seq<Run>, run: Run) -> bool {
    exists|i: int| 0 <= i < runs.len() && runs[i] == run
}

impl Store {
    /// Finishes a run as completed or failed, then runs the cascade for its
    /// task and a scheduler tick. The run keeps the summary verbatim; a run
    /// that already finished is refused.
    pub fn complete_run(
        &mut self,
        registry: &WorkflowRegistry,
        run_id: &str,
        status: RunStatus,
        summary: Option<String>,
        token_usage: Option<TokenUsagePatch>,
        timing: Option<TimingPatch>,
        now: u64,
    ) -> (r: Result<(Run, Vec<Assignment>), ApiError>)
        requires
            old(self).wf(),
        ensures
            final(self).wf(),
            match r {
                Ok((run, a)) => {
                    &&& run.id@ == run_id@
                    &&& run.status == status
                    &&& run.summary == summary
                    &&& run.completed_at_ms == Some(now)
                    &&& !run_finished(old(self).runs@, run_id@)
                    &&& holds_run(final(self).runs@, run)
                    &&& run_finished(final(self).runs@, run_id@)
                    &&& cascaded_then_ticked(
                        *old(self),
                        *final(self),
                        *registry,
                        run,
                        run_id@,
                        status,
                        summary,
                        token_usage,
                        timing,
                        a@,
                        now,
                    )
                },
                Err(e) => {
                    &&& (e.kind == ErrorKind::NotFound) == ((status == RunStatus::Completed || status
                        == RunStatus::Failed) && !has_run(old(self).runs@, run_id@))
                    &&& (e.kind == ErrorKind::BadRequest) == (!(status == RunStatus::Completed
                        || status == RunStatus::Failed) || run_finished(old(self).runs@, run_id@))
                    &&& e.kind != ErrorKind::Internal ==> *final(self) == *old(self)
                    &&& e.kind == ErrorKind::Internal ==> run_of_workflow_task(old(self).runs@, old(self).tasks@, run_id@)
                    &&& e.kind == ErrorKind::Internal ==> completion_failed(
                        *old(self),
                        *final(self),
                        *registry,
                        run_id@,
                        status,
                        summary,
                        token_usage,
                        timing,
                        now,
                    )
                },
            },
    {
        let ghost summary_g = summary;
        let run = match self.finish_run(run_id, status, summary, token_usage, timing, now) {
            Ok(run) => run,
            Err(e) => return Err(e),
        };
        proof {
            let i = choose|i: int|
                #![trigger old(self).runs@[i]]
                0 <= i < old(self).runs@.len() && old(self).runs@[i].id@ == run_id@ && self.runs@
                    == old(self).runs@.update(i, run) && run == Run {
                    status: status,
                    summary: run.summary,
                    metrics: run.metrics,
                    completed_at_ms: Some(now),
                    updated_at_ms: now,
                    ..old(self).runs@[i]
                };
            assert(self.runs@[i] == run);
            assert(holds_run(self.runs@, run));
            assert forall|j: int| 0 <= j < old(self).runs@.len() && old(self).runs@[j].id@ == run_id@
                implies !(old(self).runs@[j].status == RunStatus::Completed || old(self).runs@[j].status
                == RunStatus::Failed) by {
                assert(j == i);
            }
            assert(run_finished(self.runs@, run_id@));
        }
        let ghost m1 = *self;
        let c = self.cascade_workflow(registry, run.mission_id.as_str(), run.task_id.as_str(), now);
        match c {
            Ok(()) => {},
            Err(e) => {
                proof {
                    let i = choose|i: int|
                        #![trigger old(self).runs@[i]]
                        0 <= i < old(self).runs@.len() && old(self).runs@[i].id@ == run_id@ && m1.runs@
                            == old(self).runs@.update(i, run) && run == Run {
                            status: status,
                            summary: run.summary,
                            metrics: run.metrics,
                            completed_at_ms: Some(now),
                            updated_at_ms: now,
                            ..old(self).runs@[i]
                        } && crate::records::task_follows_run(
                            old(self).tasks@,
                            m1.tasks@,
                            old(self).runs@[i].task_id@,
                            status,
                            now,
                        );
                    let t = choose|t: int|
                        0 <= t < m1.tasks@.len() && m1.tasks@[t].id@ == run.task_id@ && m1.tasks@[t].step_id is Some;
                    assert(old(self).tasks@[t].id == m1.tasks@[t].id && old(self).tasks@[t].step_id
                        == m1.tasks@[t].step_id);
                    assert(crate::flow::is_workflow_task(old(self).tasks@, old(self).runs@[i].task_id@));
                    assert(crate::records::finished_as(
                        *old(self),
                        m1,
                        run,
                        run_id@,
                        status,
                        summary_g,
                        token_usage,
                        timing,
                        now,
                    ));
                    assert(crate::flow::cascade_outcome(m1, *self, *registry, run.mission_id@, run.task_id@, now, false));
                }
                return Err(e);
            },
        }
        let ghost m2 = *self;
        let assignments = self.schedule_tick(now);
        proof {
            assert(crate::records::finished_as(
                *old(self),
                m1,
                run,
                run_id@,
                status,
                summary_g,
                token_usage,
                timing,
                now,
            ));
            assert(crate::flow::cascade_outcome(m1, m2, *registry, run.mission_id@, run.task_id@, now, true));
            assert(tick_done(m2, *self, assignments@, now));
        }
        Ok((run, assignments))
    }
}

} // verus!

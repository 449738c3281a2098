//! The cascade as a whole: failure or unblocking, the review/fix retry loop,
//! pull-request capture, and the mission roll-up that may start the next
//! queued mission.

use vstd::prelude::*;
use crate::cascade::{failure_spread, unblocked};
use crate::decimal::parse_i64;
use crate::model::{ApiError, ErrorKind, Mission, Task};
use crate::records::task_with_status;
use crate::status::{task_is_terminal, MissionStatus, RunStatus, TaskStatus};
use crate::queue::activation_done;
use crate::store::Store;
use crate::text::text_eq;
use crate::workflow::{WorkflowManifest, WorkflowRegistry, WorkflowStep};

verus! {

/// Some task of mission `m` is not terminal.
pub open spec fn mission_open(tasks: Seq<Task>, m: Seq<char>) -> bool {
    exists|t: int| 0 <= t < tasks.len() && tasks[t].mission_id@ == m && !task_is_terminal(tasks[t].status)
}

/// Some task of mission `m` failed.
pub open spec fn mission_has_failure(tasks: Seq<Task>, m: Seq<char>) -> bool {
    exists|t: int| 0 <= t < tasks.len() && tasks[t].mission_id@ == m && tasks[t].status == TaskStatus::Failed
}

/// The status a mission rolls up to once none of its tasks is open.
pub open spec fn rolled_status(tasks: Seq<Task>, m: Seq<char>) -> MissionStatus {
    if mission_has_failure(tasks, m) {
        MissionStatus::Failed
    } else {
        MissionStatus::Completed
    }
}

/// What rolling up mission `mission_id` did. While one of its tasks is open,
/// or when it is unknown, nothing. Otherwise its status becomes failed (some
/// task failed) or completed, with nothing else changed, and from there the
/// next queued mission of its colony is started (see `activation_done`; `ok`
/// is whether that succeeded).
pub open spec fn rolled_up(
    before: Store,
    after: Store,
    registry: WorkflowRegistry,
    mission_id: Seq<char>,
    now: u64,
    ok: bool,
) -> bool {
    &&& after.wf()
    &&& if mission_open(before.tasks@, mission_id) || !crate::store::has_mission(before.missions@, mission_id) {
        after == before && ok
    } else {
        exists|i: int, mid: Store|
            #![trigger activation_done(mid, after, registry, before.missions@[i].colony_id@, now, ok)]
            0 <= i < before.missions@.len() && before.missions@[i].id@ == mission_id && mid.colonies
                == before.colonies && mid.crabs == before.crabs && mid.tasks == before.tasks && mid.deps
                == before.deps && mid.runs == before.runs && mid.missions@ == before.missions@.update(
                i,
                Mission { status: rolled_status(before.tasks@, mission_id), ..before.missions@[i] },
            ) && activation_done(mid, after, registry, before.missions@[i].colony_id@, now, ok)
    }
}

impl Store {
    pub fn mission_tasks_open(&self, m: &str) -> (r: bool)
        ensures
            r == mission_open(self.tasks@, m@),
    {
        let mut t: usize = 0;
        while t < self.tasks.len()
            invariant
                t <= self.tasks@.len(),
                forall|u: int|
                    0 <= u < t ==> !(self.tasks@[u].mission_id@ == m@ && !task_is_terminal(
                        self.tasks@[u].status,
                    )),
            decreases self.tasks@.len() - t,
        {
            let st = self.tasks[t].status;
            if !(st == TaskStatus::Completed || st == TaskStatus::Failed || st == TaskStatus::Skipped)
                && text_eq(self.tasks[t].mission_id.as_str(), m) {
                return true;
            }
            t = t + 1;
        }
        false
    }

    pub fn mission_tasks_failed(&self, m: &str) -> (r: bool)
        ensures
            r == mission_has_failure(self.tasks@, m@),
    {
        let mut t: usize = 0;
        while t < self.tasks.len()
            invariant
                t <= self.tasks@.len(),
                forall|u: int|
                    0 <= u < t ==> !(self.tasks@[u].mission_id@ == m@ && self.tasks@[u].status
                        == TaskStatus::Failed),
            decreases self.tasks@.len() - t,
        {
            if self.tasks[t].status == TaskStatus::Failed && text_eq(self.tasks[t].mission_id.as_str(), m) {
                return true;
            }
            t = t + 1;
        }
        false
    }

    /// When no task of the mission is open, the mission becomes failed (some
    /// task failed) or completed, and the next mission of its colony's queue
    /// may start.
    pub fn roll_up_mission(
        &mut self,
        registry: &WorkflowRegistry,
        mission_id: &str,
        now: u64,
    ) -> (r: Result<(), ApiError>)
        requires
            old(self).wf(),
        ensures
            r is Err ==> r->Err_0.kind == ErrorKind::Internal,
            rolled_up(*old(self), *final(self), *registry, mission_id@, now, r is Ok),
    {
        if self.mission_tasks_open(mission_id) {
            return Ok(());
        }
        let status = if self.mission_tasks_failed(mission_id) {
            MissionStatus::Failed
        } else {
            MissionStatus::Completed
        };
        let mi = match self.find_mission(mission_id) {
            Some(mi) => mi,
            None => return Ok(()),
        };
        let ghost prev = self.missions@;
        self.missions[mi].status = status;
        let colony = self.missions[mi].colony_id.clone();
        proof {
            assert(self.missions@ =~= prev.update(mi as int, Mission { status: status, ..prev[mi as int] }));
        }
        let ghost mid = *self;
        let r = self.activate_next_mission(registry, colony.as_str(), now);
        proof {
            assert(mid.missions@ == old(self).missions@.update(
                mi as int,
                Mission { status: rolled_status(old(self).tasks@, mission_id@), ..old(self).missions@[mi as int] },
            ));
            assert(activation_done(mid, *self, *registry, old(self).missions@[mi as int].colony_id@, now, r is Ok));
        }
        r
    }
}

/// Number of completed runs of task `id`.
pub open spec fn completed_runs_of(runs: Seq<crate::model::Run>, id: Seq<char>) -> nat
    decreases runs.len(),
{
    if runs.len() == 0 {
        0
    } else {
        completed_runs_of(runs.drop_last(), id) + if runs.last().task_id@ == id
            && runs.last().status == RunStatus::Completed {
            1nat
        } else {
            0nat
        }
    }
}

/// `k` is the first task of mission `m` whose step is `review`.
pub open spec fn first_review(tasks: Seq<Task>, m: Seq<char>, k: int) -> bool {
    &&& 0 <= k < tasks.len()
    &&& is_review_of(tasks[k], m)
    &&& forall|j: int| 0 <= j < k ==> !is_review_of(tasks[j], m)
}

pub open spec fn is_review_of(t: Task, m: Seq<char>) -> bool {
    &&& t.mission_id@ == m
    &&& (t.step_id matches Some(s) && s@ == "review"@)
}

/// What sending mission `mission_id`'s review back after a fix did.
/// `max_retries` of the first step called `review`, 0 without one.
pub open spec fn budget_in(steps: Seq<WorkflowStep>) -> nat
    decreases steps.len(),
{
    if steps.len() == 0 {
        0
    } else if steps[0].id@ == "review"@ {
        steps[0].max_retries as nat
    } else {
        budget_in(steps.drop_first())
    }
}

/// The review budget of the first manifest called `name`, 0 without one.
pub open spec fn budget_among(ms: Seq<WorkflowManifest>, name: Seq<char>) -> nat
    decreases ms.len(),
{
    if ms.len() == 0 {
        0
    } else if ms[0].workflow.name@ == name {
        budget_in(ms[0].steps@)
    } else {
        budget_among(ms.drop_first(), name)
    }
}

/// The retry budget of mission `m`'s review: the budget of the first manifest
/// named as its workflow, 0 when the mission, its workflow or the manifest is
/// missing.
pub open spec fn review_budget_of(registry: WorkflowRegistry, missions: Seq<Mission>, m: Seq<char>) -> nat {
    if crate::store::has_mission(missions, m) {
        budget_for(registry, missions[choose|i: int| 0 <= i < missions.len() && missions[i].id@ == m].workflow_name)
    } else {
        0
    }
}

/// The review budget of the first manifest named `wf`, 0 when there is none.
pub open spec fn budget_for(registry: WorkflowRegistry, wf: Option<String>) -> nat {
    match wf {
        Some(w) => budget_among(registry.manifests@, w@),
        None => 0,
    }
}

pub open spec fn review_requeued(
    before: Store,
    after: Store,
    registry: WorkflowRegistry,
    mission_id: Seq<char>,
    now: u64,
) -> bool {
    &&& after.wf()
    &&& after.colonies == before.colonies
    &&& after.crabs == before.crabs
    &&& after.missions == before.missions
    &&& after.deps == before.deps
    &&& after.runs == before.runs
    &&& after.tasks@.len() == before.tasks@.len()
    &&& ((forall|j: int| 0 <= j < before.tasks@.len() ==> !is_review_of(before.tasks@[j], mission_id))
        ==> after == before)
    &&& (forall|k: int|
        first_review(before.tasks@, mission_id, k) ==> if completed_runs_of(before.runs@, before.tasks@[k].id@)
            <= review_budget_of(registry, before.missions@, mission_id) {
            after.tasks@ == before.tasks@.update(
                k,
                task_with_status(before.tasks@[k], TaskStatus::Queued, now),
            )
        } else {
            exists|mid: Store|
                #![trigger failure_spread(mid, after, before.tasks@[k].id@, now)]
                mid.tasks@ == before.tasks@.update(k, task_with_status(before.tasks@[k], TaskStatus::Failed, now))
                    && mid.colonies == before.colonies && mid.crabs == before.crabs && mid.missions
                    == before.missions && mid.deps == before.deps && mid.runs == before.runs
                    && failure_spread(mid, after, before.tasks@[k].id@, now)
        })
}

/// What recording mission `mission_id`'s pull-request number from `ctx` did.
pub open spec fn pr_captured(before: Store, after: Store, mission_id: Seq<char>, ctx: crate::condition::ContextMap) -> bool {
    &&& after.wf()
    &&& after.colonies == before.colonies
    &&& after.crabs == before.crabs
    &&& after.tasks == before.tasks
    &&& after.deps == before.deps
    &&& after.runs == before.runs
    &&& after.missions@.len() == before.missions@.len()
    &&& (forall|i: int|
        0 <= i < before.missions@.len() ==> #[trigger] after.missions@[i] == (
        if before.missions@[i].id@ == mission_id && ctx.get_spec("pr.result"@) is Some
            && crate::decimal::parsed_i64(ctx.get_spec("pr.result"@)->0) is Some {
            Mission {
                github_pr_number: crate::decimal::parsed_i64(ctx.get_spec("pr.result"@)->0),
                ..before.missions@[i]
            }
        } else {
            before.missions@[i]
        }))
}

impl Store {
    pub fn count_completed_runs(&self, id: &str) -> (r: u64)
        ensures
            r == completed_runs_of(self.runs@, id@),
    {
        let mut i: usize = 0;
        let mut n: u64 = 0;
        while i < self.runs.len()
            invariant
                i <= self.runs@.len(),
                n == completed_runs_of(self.runs@.subrange(0, i as int), id@),
                n <= i,
            decreases self.runs@.len() - i,
        {
            proof {
                assert(self.runs@.subrange(0, i + 1).drop_last() =~= self.runs@.subrange(0, i as int));
            }
            if self.runs[i].status == RunStatus::Completed && text_eq(self.runs[i].task_id.as_str(), id) {
                n = n + 1;
            }
            i = i + 1;
        }
        proof {
            assert(self.runs@.subrange(0, i as int) =~= self.runs@);
        }
        n
    }

    pub fn find_review_task(&self, m: &str) -> (r: Option<usize>)
        ensures
            match r {
                Some(k) => first_review(self.tasks@, m@, k as int),
                None => forall|j: int| 0 <= j < self.tasks@.len() ==> !is_review_of(self.tasks@[j], m@),
            },
    {
        let mut k: usize = 0;
        while k < self.tasks.len()
            invariant
                k <= self.tasks@.len(),
                forall|j: int| 0 <= j < k ==> !is_review_of(self.tasks@[j], m@),
            decreases self.tasks@.len() - k,
        {
            let hit = match &self.tasks[k].step_id {
                Some(s) => text_eq(s.as_str(), "review"),
                None => false,
            };
            if hit && text_eq(self.tasks[k].mission_id.as_str(), m) {
                return Some(k);
            }
            k = k + 1;
        }
        None
    }

    /// The retry budget of mission `m`'s review step: `max_retries` of the
    /// first `review` step of its workflow, 0 when there is none.
    fn review_budget(&self, registry: &WorkflowRegistry, m: &str) -> (r: u32)
        requires
            self.wf(),
        ensures
            r as nat == review_budget_of(*registry, self.missions@, m@),
    {
        let mi = match self.find_mission(m) {
            Some(mi) => mi,
            None => return 0,
        };
        proof {
            let c = choose|i: int| 0 <= i < self.missions@.len() && self.missions@[i].id@ == m@;
            assert(c == mi);
        }
        let name = match &self.missions[mi].workflow_name {
            Some(w) => w,
            None => return 0,
        };
        let ms = &registry.manifests;
        let mut k: usize = 0;
        let ghost total = review_budget_of(*registry, self.missions@, m@);
        proof {
            assert(ms@.subrange(0, ms@.len() as int) =~= ms@);
            assert(total == budget_among(ms@, name@));
        }
        while k < ms.len()
            invariant
                k <= ms@.len(),
                budget_among(ms@, name@) == budget_among(ms@.subrange(k as int, ms@.len() as int), name@),
                total == budget_among(ms@, name@),
                total == review_budget_of(*registry, self.missions@, m@),
            decreases ms@.len() - k,
        {
            proof {
                assert(ms@.subrange(k as int, ms@.len() as int).drop_first() =~= ms@.subrange(k + 1, ms@.len() as int));
            }
            if text_eq(ms[k].workflow.name.as_str(), name.as_str()) {
                let steps = &ms[k].steps;
                let mut q: usize = 0;
                proof {
                    assert(steps@.subrange(0, steps@.len() as int) =~= steps@);
                    assert(ms@.subrange(k as int, ms@.len() as int)[0] == ms@[k as int]);
                    assert(total == budget_in(steps@));
                }
                while q < steps.len()
                    invariant
                        q <= steps@.len(),
                        budget_in(steps@) == budget_in(steps@.subrange(q as int, steps@.len() as int)),
                        total == budget_in(steps@),
                        total == review_budget_of(*registry, self.missions@, m@),
                    decreases steps@.len() - q,
                {
                    proof {
                        assert(steps@.subrange(q as int, steps@.len() as int).drop_first() =~= steps@.subrange(
                            q + 1,
                            steps@.len() as int,
                        ));
                    }
                    if text_eq(steps[q].id.as_str(), "review") {
                        proof {
                            assert(steps@.subrange(q as int, steps@.len() as int)[0] == steps@[q as int]);
                        }
                        return steps[q].max_retries;
                    }
                    q = q + 1;
                }
                return 0;
            }
            k = k + 1;
        }
        0
    }

    /// After a `fix` step completes, the mission's review task runs again: it
    /// is queued while its completed runs stay within the retry budget, and
    /// fails (with everything that depends on it) once they exceed it.
    pub fn requeue_review_after_fix(&mut self, registry: &WorkflowRegistry, mission_id: &str, now: u64)
        requires
            old(self).wf(),
        ensures
            review_requeued(*old(self), *final(self), *registry, mission_id@, now),
    {
        let k = match self.find_review_task(mission_id) {
            Some(k) => k,
            None => return,
        };
        let budget = self.review_budget(registry, mission_id);
        let done = self.count_completed_runs(self.tasks[k].id.as_str());
        let ghost prev = self.tasks@;
        if done > budget as u64 {
            self.tasks[k].status = TaskStatus::Failed;
            self.tasks[k].updated_at_ms = now;
            let id = self.tasks[k].id.clone();
            proof {
                assert(self.tasks@ =~= prev.update(k as int, task_with_status(prev[k as int], TaskStatus::Failed, now)));
            }
            let ghost mid = *self;
            self.propagate_failure(id.as_str(), now);
            proof {
                assert(failure_spread(mid, *self, old(self).tasks@[k as int].id@, now));
            }
        } else {
            self.tasks[k].status = TaskStatus::Queued;
            self.tasks[k].updated_at_ms = now;
            proof {
                assert(self.tasks@ =~= prev.update(k as int, task_with_status(prev[k as int], TaskStatus::Queued, now)));
            }
        }
        proof {
            assert forall|j: int| first_review(prev, mission_id@, j) implies j == k by {
                if j < k {
                } else if j > k {
                }
            }
        }
    }

    /// After the `pr` step completes, a `pr.result` that reads as an integer
    /// becomes the mission's pull-request number.
    pub fn capture_pr_number(&mut self, mission_id: &str, ctx: &crate::condition::ContextMap)
        requires
            old(self).wf(),
        ensures
            pr_captured(*old(self), *final(self), mission_id@, *ctx),
    {
        let v = match ctx.get("pr.result") {
            Some(v) => v,
            None => return,
        };
        let n = match parse_i64(v.as_str()) {
            Some(n) => n,
            None => return,
        };
        if let Some(mi) = self.find_mission(mission_id) {
            self.missions[mi].github_pr_number = Some(n);
        }
    }
}


/// Some task with id `id` is a workflow step.
pub open spec fn is_workflow_task(tasks: Seq<Task>, id: Seq<char>) -> bool {
    exists|t: int| 0 <= t < tasks.len() && tasks[t].id@ == id && tasks[t].step_id is Some
}

/// The review phase after unblocking: a completed `fix` step sends the review
/// back; any other step changes nothing.
pub open spec fn review_phase(
    before: Store,
    after: Store,
    registry: WorkflowRegistry,
    mission_id: Seq<char>,
    step: Seq<char>,
    status: TaskStatus,
    now: u64,
) -> bool {
    if step == "fix"@ && status == TaskStatus::Completed {
        review_requeued(before, after, registry, mission_id, now)
    } else {
        after == before
    }
}

/// The pull-request phase: a `pr` step records the number; any other step
/// changes nothing.
pub open spec fn pr_phase(
    before: Store,
    after: Store,
    mission_id: Seq<char>,
    step: Seq<char>,
    ctx: crate::condition::ContextMap,
) -> bool {
    if step == "pr"@ {
        pr_captured(before, after, mission_id, ctx)
    } else {
        after == before
    }
}

pub open spec fn after_review(
    m2: Store,
    after: Store,
    registry: WorkflowRegistry,
    mission_id: Seq<char>,
    step: Seq<char>,
    ctx: crate::condition::ContextMap,
    now: u64,
    ok: bool,
) -> bool {
    exists|m3: Store|
        #![trigger pr_phase(m2, m3, mission_id, step, ctx)]
        pr_phase(m2, m3, mission_id, step, ctx) && rolled_up(m3, after, registry, mission_id, now, ok)
}

pub open spec fn after_unblock(
    m1: Store,
    after: Store,
    registry: WorkflowRegistry,
    mission_id: Seq<char>,
    step: Seq<char>,
    status: TaskStatus,
    ctx: crate::condition::ContextMap,
    now: u64,
    ok: bool,
) -> bool {
    exists|m2: Store|
        #![trigger review_phase(m1, m2, registry, mission_id, step, status, now)]
        review_phase(m1, m2, registry, mission_id, step, status, now) && after_review(m2, after, registry, mission_id, step, ctx, now, ok)
}

/// What the cascade did for task `id` of mission `mission_id`: nothing for an
/// unknown or ad-hoc task; for a failed step, the failure spread and the
/// mission rolled up; otherwise the unblocking pass under the mission's
/// context map, the review and pull-request phases, and the roll-up.
pub open spec fn cascade_outcome(
    before: Store,
    after: Store,
    registry: WorkflowRegistry,
    mission_id: Seq<char>,
    id: Seq<char>,
    now: u64,
    ok: bool,
) -> bool {
    match crate::context::task_by_id(before.tasks@, id) {
        None => after == before,
        Some(t) => match t.step_id {
            None => after == before,
            Some(step) => if t.status == TaskStatus::Failed {
                exists|mid: Store|
                    #![trigger failure_spread(before, mid, id, now)]
                    failure_spread(before, mid, id, now) && rolled_up(mid, after, registry, mission_id, now, ok)
            } else {
                exists|ctx: crate::condition::ContextMap, m1: Store|
                    #![trigger unblocked(before, m1, id, ctx, now)]
                    (forall|k: Seq<char>|
                        ctx.get_spec(k) == crate::context::context_value(
                            before.runs@,
                            before.tasks@,
                            mission_id,
                            k,
                        )) && unblocked(before, m1, id, ctx, now) && after_unblock(
                        m1,
                        after,
                        registry,
                        mission_id,
                        step@,
                        t.status,
                        ctx,
                        now,
                        ok,
                    )
            },
        },
    }
}

impl Store {
    /// Runs the cascade for a workflow task that just became completed or
    /// failed: a failure spreads to every task that depends on it; otherwise
    /// its blocked dependents are unblocked, queued or skipped against the
    /// mission's context map, a completed `fix` sends the review back, and a
    /// `pr` step records the pull-request number. Then the mission rolls up.
    /// Ad-hoc tasks (no step id) and unknown tasks leave the store as it was.
    pub fn cascade_workflow(
        &mut self,
        registry: &WorkflowRegistry,
        mission_id: &str,
        completed_task_id: &str,
        now: u64,
    ) -> (r: Result<(), ApiError>)
        requires
            old(self).wf(),
        ensures
            final(self).wf(),
            final(self).colonies == old(self).colonies,
            final(self).crabs == old(self).crabs,
            final(self).runs == old(self).runs,
            r is Err ==> r->Err_0.kind == ErrorKind::Internal,
            r is Err ==> is_workflow_task(old(self).tasks@, completed_task_id@),
            cascade_outcome(*old(self), *final(self), *registry, mission_id@, completed_task_id@, now, r is Ok),
    {
        let t = match self.find_task(completed_task_id) {
            Some(t) => t,
            None => return Ok(()),
        };
        proof {
            let c = choose|c: int| 0 <= c < self.tasks@.len() && self.tasks@[c].id@ == completed_task_id@;
            assert(c == t);
        }
        proof {
            if self.tasks@[t as int].step_id is Some {
                assert(is_workflow_task(self.tasks@, completed_task_id@));
            }
        }
        let step = match &self.tasks[t].step_id {
            Some(s) => s.clone(),
            None => return Ok(()),
        };
        let status = self.tasks[t].status;
        if status == TaskStatus::Failed {
            self.propagate_failure(completed_task_id, now);
            let ghost mid = *self;
            let r = self.roll_up_mission(registry, mission_id, now);
            proof {
                assert(failure_spread(*old(self), mid, completed_task_id@, now) && rolled_up(
                    mid,
                    *self,
                    *registry,
                    mission_id@,
                    now,
                    r is Ok,
                ));
            }
            return r;
        }
        let ctx = self.build_context_map(mission_id);
        self.unblock_dependents(completed_task_id, &ctx, now);
        let ghost m1 = *self;
        if text_eq(step.as_str(), "fix") && status == TaskStatus::Completed {
            self.requeue_review_after_fix(registry, mission_id, now);
        }
        let ghost m2 = *self;
        if text_eq(step.as_str(), "pr") {
            self.capture_pr_number(mission_id, &ctx);
        }
        let ghost m3 = *self;
        let r = self.roll_up_mission(registry, mission_id, now);
        proof {
            assert(review_phase(m1, m2, *registry, mission_id@, step@, status, now));
            assert(pr_phase(m2, m3, mission_id@, step@, ctx));
            assert(after_review(m2, *self, *registry, mission_id@, step@, ctx, now, r is Ok));
            assert(after_unblock(m1, *self, *registry, mission_id@, step@, status, ctx, now, r is Ok));
            assert(unblocked(*old(self), m1, completed_task_id@, ctx, now));
        }
        r
    }
}

} // verus!

//! The merge-wait poller's decisions: which tasks to poll, with what, and what
//! a pull request's state does to the task.

use vstd::prelude::*;
use crate::metrics::RunMetrics;
use crate::model::{ApiError, Burrow, ErrorKind, Run, Task};
use crate::protocol::Assignment;
use crate::schedule::is_merge_wait;
use crate::records::{task_follows_run, task_with_status};
use crate::status::{BurrowMode, RunStatus, TaskStatus};
use crate::store::{has_run, Store};
use crate::text::text_eq;
use crate::workflow::WorkflowRegistry;

verus! {

/// A queued merge-wait task with its mission's pull-request number and its
/// colony's repository.
#[derive(Debug)]
pub struct MergeWaitItem {
    pub task_id: String,
    pub mission_id: String,
    pub pr_number: Option<i64>,
    pub repo: Option<String>,
}

/// What a pull request's state means for the task waiting on it.
#[derive(Debug, Clone, Copy, PartialEq, Eq, Structural)]
pub enum MergeOutcome {
    Merged,
    Closed,
    Open,
}

/// Merged when the state is `MERGED` or a merge time is known; closed when the
/// state is `CLOSED`; open otherwise.
pub open spec fn outcome_of(state: Seq<char>, merged: bool) -> MergeOutcome {
    if state == "MERGED"@ || merged {
        MergeOutcome::Merged
    } else if state == "CLOSED"@ {
        MergeOutcome::Closed
    } else {
        MergeOutcome::Open
    }
}

pub fn merge_outcome(state: &str, merged_at: &Option<String>) -> (r: MergeOutcome)
    ensures
        r == outcome_of(state@, merged_at is Some),
{
    if text_eq(state, "MERGED") || merged_at.is_some() {
        MergeOutcome::Merged
    } else if text_eq(state, "CLOSED") {
        MergeOutcome::Closed
    } else {
        MergeOutcome::Open
    }
}

/// The repository and pull request to ask about, or none when either is
/// missing: then the task is left as it is until the next poll.
pub fn poll_target(item: &MergeWaitItem) -> (r: Option<(String, i64)>)
    ensures
        match r {
            Some((repo, n)) => item.repo == Some(repo) && item.pr_number == Some(n),
            None => item.repo is None || item.pr_number is None,
        },
{
    match (&item.repo, item.pr_number) {
        (Some(repo), Some(n)) => Some((repo.clone(), n)),
        _ => None,
    }
}

/// `item` describes task `t`: a queued merge-wait task whose mission and
/// colony exist.
pub open spec fn item_of(s: Store, t: int, item: MergeWaitItem) -> bool {
    &&& 0 <= t < s.tasks@.len()
    &&& is_merge_wait(s.tasks@[t])
    &&& s.tasks@[t].status == TaskStatus::Queued
    &&& item.task_id == s.tasks@[t].id
    &&& item.mission_id == s.tasks@[t].mission_id
    &&& exists|m: int, c: int|
        0 <= m < s.missions@.len() && 0 <= c < s.colonies@.len() && s.missions@[m].id@
            == s.tasks@[t].mission_id@ && s.colonies@[c].id@ == s.missions@[m].colony_id@
            && item.pr_number == s.missions@[m].github_pr_number && item.repo == s.colonies@[c].repo
}

/// Task `t` is a queued merge-wait task whose mission and that mission's
/// colony exist.
pub open spec fn mw_ready(s: Store, t: int) -> bool {
    &&& 0 <= t < s.tasks@.len()
    &&& is_merge_wait(s.tasks@[t])
    &&& s.tasks@[t].status == TaskStatus::Queued
    &&& exists|m: int, c: int|
        0 <= m < s.missions@.len() && 0 <= c < s.colonies@.len() && s.missions@[m].id@
            == s.tasks@[t].mission_id@ && s.colonies@[c].id@ == s.missions@[m].colony_id@
}

/// `r` lists one item for each ready merge-wait task, in task order.
pub open spec fn items_listed(s: Store, r: Seq<MergeWaitItem>) -> bool {
    exists|src: Seq<int>|
        #![trigger listed_from(s, r, src)]
        listed_from(s, r, src)
}

/// Item `k` of `r` describes task `src[k]`; the tasks increase and every
/// ready merge-wait task among them appears.
pub open spec fn listed_from(s: Store, r: Seq<MergeWaitItem>, src: Seq<int>) -> bool {
    &&& src.len() == r.len()
    &&& forall|k: int| 0 <= k < r.len() ==> item_of(s, #[trigger] src[k], r[k])
    &&& forall|k1: int, k2: int| 0 <= k1 < k2 < r.len() ==> #[trigger] src[k1] < #[trigger] src[k2]
    &&& forall|t: int| #[trigger] mw_ready(s, t) ==> exists|k: int| 0 <= k < src.len() && src[k] == t
}

impl Store {
    /// Every queued merge-wait task whose mission and colony exist, once each,
    /// in task order.
    pub fn merge_wait_items(&self) -> (r: Vec<MergeWaitItem>)
        requires
            self.wf(),
        ensures
            items_listed(*self, r@),
    {
        let mut out: Vec<MergeWaitItem> = Vec::new();
        let ghost mut src: Seq<int> = Seq::empty();
        let mut t: usize = 0;
        while t < self.tasks.len()
            invariant
                self.wf(),
                t <= self.tasks@.len(),
                src.len() == out@.len(),
                forall|k: int| 0 <= k < out@.len() ==> item_of(*self, #[trigger] src[k], out@[k]),
                forall|k1: int, k2: int| 0 <= k1 < k2 < out@.len() ==> #[trigger] src[k1] < #[trigger] src[k2],
                forall|k: int| 0 <= k < src.len() ==> #[trigger] src[k] < t,
                forall|u: int| 0 <= u < t && #[trigger] mw_ready(*self, u) ==> exists|k: int| 0 <= k < src.len() && src[k] == u,
            decreases self.tasks@.len() - t,
        {
            let task = &self.tasks[t];
            let mw = match &task.step_id {
                Some(s) => text_eq(s.as_str(), "merge-wait"),
                None => false,
            };
            if mw && task.status == TaskStatus::Queued {
                if let Some(m) = self.find_mission(task.mission_id.as_str()) {
                    if let Some(c) = self.find_colony(self.missions[m].colony_id.as_str()) {
                        let item = MergeWaitItem {
                            task_id: task.id.clone(),
                            mission_id: task.mission_id.clone(),
                            pr_number: self.missions[m].github_pr_number,
                            repo: crate::model::clone_text(&self.colonies[c].repo),
                        };
                        proof {
                            assert(item_of(*self, t as int, item));
                        }
                        let ghost before_push = out@;
                        let ghost src_before = src;
                        out.push(item);
                        proof {
                            src = src.push(t as int);
                            assert forall|k: int| 0 <= k < out@.len() implies item_of(*self, #[trigger] src[k], out@[k]) by {
                                if k < before_push.len() {
                                    assert(out@[k] == before_push[k]);
                                    assert(src[k] == src_before[k]);
                                }
                            }
                            assert forall|u: int| 0 <= u < t + 1 && #[trigger] mw_ready(*self, u) implies exists|k: int|
                                0 <= k < src.len() && src[k] == u by {
                                if u < t {
                                    let k = choose|k: int| 0 <= k < src_before.len() && src_before[k] == u;
                                    assert(src[k] == u);
                                } else {
                                    assert(src[src.len() - 1] == u);
                                }
                            }
                        }
                    } else {
                        proof {
                            if mw_ready(*self, t as int) {
                                let (mm, cc) = choose|mm: int, cc: int|
                                    0 <= mm < self.missions@.len() && 0 <= cc < self.colonies@.len()
                                        && self.missions@[mm].id@ == self.tasks@[t as int].mission_id@
                                        && self.colonies@[cc].id@ == self.missions@[mm].colony_id@;
                                assert(mm == m);
                            }
                        }
                    }
                }
            }
            t = t + 1;
        }
        proof {
            assert(listed_from(*self, out@, src));
        }
        out
    }

    /// Applies a pull request's state to its merge-wait task, drawing a random
    /// id for the synthetic run of a merged pull request (see
    /// `apply_merge_outcome_with_id`).
    pub fn apply_merge_outcome(
        &mut self,
        registry: &WorkflowRegistry,
        task_id: &str,
        mission_id: &str,
        pr_number: i64,
        outcome: MergeOutcome,
        now: u64,
    ) -> (r: Result<Vec<Assignment>, ApiError>)
        requires
            old(self).wf(),
        ensures
            final(self).wf(),
            outcome == MergeOutcome::Open ==> *final(self) == *old(self) && (r matches Ok(a) && a@.len() == 0),
            r is Err ==> r->Err_0.kind == ErrorKind::Internal,
            outcome != MergeOutcome::Open && r is Ok ==> merge_applied_some_id(
                *old(self),
                *final(self),
                *registry,
                task_id@,
                mission_id@,
                pr_number,
                outcome,
                r->Ok_0@,
                now,
            ),
            outcome != MergeOutcome::Open && r is Err ==> *final(self) == *old(self) || merge_failed_some_id(
                *old(self),
                *final(self),
                *registry,
                task_id@,
                mission_id@,
                pr_number,
                outcome,
                now,
            ),
    {
        let run_id = crate::trusted::new_uuid_text();
        let ghost rid = run_id@;
        let r = self.apply_merge_outcome_with_id(registry, task_id, mission_id, pr_number, outcome, run_id, now);
        proof {
            if outcome != MergeOutcome::Open {
                if r is Ok {
                    assert(merge_applied(*old(self), *self, *registry, task_id@, mission_id@, pr_number, outcome, rid, r->Ok_0@, now));
                } else if *self != *old(self) {
                    assert(merge_failed(*old(self), *self, *registry, task_id@, mission_id@, pr_number, outcome, rid, now));
                }
            }
        }
        r
    }

    /// Applies a pull request's state to its merge-wait task. Merged: a
    /// completed run with id `run_id` by `system`, summary `PR #<n> merged`, is
    /// recorded and the task completes. Closed: the task fails. Either way the
    /// cascade and a scheduler tick follow. Open: nothing changes. A merged
    /// pull request fails, changing nothing, when `run_id` is in use; beyond
    /// that an error comes only from the cascade, as `cascade_outcome` states.
    pub fn apply_merge_outcome_with_id(
        &mut self,
        registry: &WorkflowRegistry,
        task_id: &str,
        mission_id: &str,
        pr_number: i64,
        outcome: MergeOutcome,
        run_id: String,
        now: u64,
    ) -> (r: Result<Vec<Assignment>, ApiError>)
        requires
            old(self).wf(),
        ensures
            final(self).wf(),
            outcome == MergeOutcome::Open ==> *final(self) == *old(self) && (r matches Ok(a) && a@.len() == 0),
            r is Err ==> r->Err_0.kind == ErrorKind::Internal,
            outcome == MergeOutcome::Merged && crate::store::id_in_use(*old(self), run_id@) ==> r is Err
                && *final(self) == *old(self),
            outcome != MergeOutcome::Open && !(outcome == MergeOutcome::Merged && crate::store::id_in_use(
                *old(self),
                run_id@,
            )) ==> match r {
                Ok(a) => merge_applied(*old(self), *final(self), *registry, task_id@, mission_id@, pr_number, outcome, run_id@, a@, now),
                Err(_) => merge_failed(*old(self), *final(self), *registry, task_id@, mission_id@, pr_number, outcome, run_id@, now),
            },
    {
        let ghost rid = run_id@;
        match outcome {
            MergeOutcome::Open => {
                return Ok(Vec::new());
            },
            MergeOutcome::Merged => {
                if self.id_in_use(run_id.as_str()) {
                    return Err(ApiError::internal("id is already in use"));
                }
                let mut summary = "PR #".to_string();
                let n = crate::decimal::format_i64(pr_number);
                summary.append(n.as_str());
                summary.append(" merged");
                let run = Run {
                    id: run_id,
                    mission_id: mission_id.to_string(),
                    task_id: task_id.to_string(),
                    crab_id: "system".to_string(),
                    status: RunStatus::Completed,
                    burrow: Burrow { path: String::new(), mode: BurrowMode::Worktree, base_branch: None },
                    progress_message: "PR merged".to_string(),
                    summary: Some(summary),
                    metrics: RunMetrics {
                        prompt_tokens: 0,
                        completion_tokens: 0,
                        total_tokens: 0,
                        first_token_ms: None,
                        llm_duration_ms: None,
                        execution_duration_ms: None,
                        end_to_end_ms: None,
                    },
                    started_at_ms: now,
                    updated_at_ms: now,
                    completed_at_ms: Some(now),
                };
                self.runs.push(run);
                if let Some(t) = self.find_task(task_id) {
                    self.tasks[t].status = TaskStatus::Completed;
                    self.tasks[t].updated_at_ms = now;
                    proof {
                        assert(self.tasks@ =~= old(self).tasks@.update(
                            t as int,
                            task_with_status(old(self).tasks@[t as int], TaskStatus::Completed, now),
                        ));
                    }
                }
            },
            MergeOutcome::Closed => {
                if let Some(t) = self.find_task(task_id) {
                    self.tasks[t].status = TaskStatus::Failed;
                    self.tasks[t].updated_at_ms = now;
                    proof {
                        assert(self.tasks@ =~= old(self).tasks@.update(
                            t as int,
                            task_with_status(old(self).tasks@[t as int], TaskStatus::Failed, now),
                        ));
                    }
                }
            },
        }
        let ghost m1 = *self;
        proof {
            assert(self.runs@.subrange(0, old(self).runs@.len() as int) =~= old(self).runs@);
            assert(merge_prepared(*old(self), m1, task_id@, mission_id@, pr_number, outcome, rid, now));
        }
        match self.cascade_workflow(registry, mission_id, task_id, now) {
            Ok(()) => {},
            Err(e) => {
                proof {
                    assert(crate::flow::cascade_outcome(m1, *self, *registry, mission_id@, task_id@, now, false));
                }
                return Err(e);
            },
        }
        let ghost m2 = *self;
        let assignments = self.schedule_tick(now);
        proof {
            assert(crate::flow::cascade_outcome(m1, m2, *registry, mission_id@, task_id@, now, true));
            assert(crate::schedule::tick_done(m2, *self, assignments@, now));
        }
        Ok(assignments)
    }
}

/// `m1` is `before` with the merge-wait task `task_id` (if it exists) moved to
/// completed (merged) or failed (closed) at `now`; a merged pull request also
/// appends its synthetic run with id `run_id`. Nothing else changed.
pub open spec fn merge_prepared(
    before: Store,
    m1: Store,
    task_id: Seq<char>,
    mission_id: Seq<char>,
    n: i64,
    outcome: MergeOutcome,
    run_id: Seq<char>,
    now: u64,
) -> bool {
    &&& m1.colonies == before.colonies
    &&& m1.crabs == before.crabs
    &&& m1.missions == before.missions
    &&& m1.deps == before.deps
    &&& if outcome == MergeOutcome::Merged {
        &&& task_follows_run(before.tasks@, m1.tasks@, task_id, RunStatus::Completed, now)
        &&& m1.runs@.len() == before.runs@.len() + 1
        &&& m1.runs@.subrange(0, before.runs@.len() as int) == before.runs@
        &&& m1.runs@.last().id@ == run_id
        &&& merge_run(m1.runs@.last(), task_id, mission_id, n, now)
    } else {
        &&& task_follows_run(before.tasks@, m1.tasks@, task_id, RunStatus::Failed, now)
        &&& m1.runs == before.runs
    }
}

/// The pull request's state was applied: from `before`, the task and run
/// changes (`merge_prepared`) led to `m1`, the cascade for the task led to
/// `m2`, and one scheduler tick from `m2` to `after` produced `out`.
pub open spec fn merge_applied(
    before: Store,
    after: Store,
    registry: WorkflowRegistry,
    task_id: Seq<char>,
    mission_id: Seq<char>,
    n: i64,
    outcome: MergeOutcome,
    run_id: Seq<char>,
    out: Seq<Assignment>,
    now: u64,
) -> bool {
    exists|m1: Store, m2: Store|
        #![trigger crate::flow::cascade_outcome(m1, m2, registry, mission_id, task_id, now, true)]
        merge_prepared(before, m1, task_id, mission_id, n, outcome, run_id, now)
            && crate::flow::cascade_outcome(m1, m2, registry, mission_id, task_id, now, true)
            && crate::schedule::tick_done(m2, after, out, now)
}

/// `merge_applied` for some run id.
pub open spec fn merge_applied_some_id(
    before: Store,
    after: Store,
    registry: WorkflowRegistry,
    task_id: Seq<char>,
    mission_id: Seq<char>,
    n: i64,
    outcome: MergeOutcome,
    out: Seq<Assignment>,
    now: u64,
) -> bool {
    exists|run_id: Seq<char>|
        #![trigger merge_applied(before, after, registry, task_id, mission_id, n, outcome, run_id, out, now)]
        merge_applied(before, after, registry, task_id, mission_id, n, outcome, run_id, out, now)
}

/// Applying the pull request's state failed in the cascade: from `before`,
/// `merge_prepared` led to `m1`, and the cascade from `m1` to `after` failed
/// as `cascade_outcome` describes.
pub open spec fn merge_failed(
    before: Store,
    after: Store,
    registry: WorkflowRegistry,
    task_id: Seq<char>,
    mission_id: Seq<char>,
    n: i64,
    outcome: MergeOutcome,
    run_id: Seq<char>,
    now: u64,
) -> bool {
    exists|m1: Store|
        #![trigger crate::flow::cascade_outcome(m1, after, registry, mission_id, task_id, now, false)]
        merge_prepared(before, m1, task_id, mission_id, n, outcome, run_id, now)
            && crate::flow::cascade_outcome(m1, after, registry, mission_id, task_id, now, false)
}

/// `merge_failed` for some run id.
pub open spec fn merge_failed_some_id(
    before: Store,
    after: Store,
    registry: WorkflowRegistry,
    task_id: Seq<char>,
    mission_id: Seq<char>,
    n: i64,
    outcome: MergeOutcome,
    now: u64,
) -> bool {
    exists|run_id: Seq<char>|
        #![trigger merge_failed(before, after, registry, task_id, mission_id, n, outcome, run_id, now)]
        merge_failed(before, after, registry, task_id, mission_id, n, outcome, run_id, now)
}

/// The synthetic run recorded when a pull request merged.
pub open spec fn merge_run(r: Run, task_id: Seq<char>, mission_id: Seq<char>, n: i64, now: u64) -> bool {
    &&& r.task_id@ == task_id
    &&& r.mission_id@ == mission_id
    &&& r.crab_id@ == "system"@
    &&& r.status == RunStatus::Completed
    &&& (r.summary matches Some(s) && s@ == "PR #"@ + crate::decimal::signed_text(n as int) + " merged"@)
    &&& r.completed_at_ms == Some(now)
}

} // verus!

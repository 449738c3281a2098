//! Totals of the status snapshot.

use vstd::prelude::*;
use crate::model::{ApiError, Crab, Run, Task};
use crate::status::{CrabState, RunStatus, TaskStatus};
use crate::store::Store;
use crate::text::{find_char, first_index_of};

verus! {

/// Counts over the whole store, as the status snapshot reports them.
#[derive(Debug, Clone, Copy, PartialEq, Eq, Structural)]
pub struct StatusSummary {
    pub total_crabs: usize,
    pub busy_crabs: usize,
    pub running_tasks: usize,
    pub running_runs: usize,
    pub completed_runs: usize,
    pub failed_runs: usize,
    pub total_tokens: u64,
    pub avg_end_to_end_ms: Option<u64>,
}

pub open spec fn busy_count(crabs: Seq<Crab>) -> nat
    decreases crabs.len(),
{
    if crabs.len() == 0 {
        0
    } else {
        busy_count(crabs.drop_last()) + if crabs.last().state == CrabState::Busy {
            1nat
        } else {
            0nat
        }
    }
}

pub open spec fn running_task_count(tasks: Seq<Task>) -> nat
    decreases tasks.len(),
{
    if tasks.len() == 0 {
        0
    } else {
        running_task_count(tasks.drop_last()) + if tasks.last().status == TaskStatus::Running {
            1nat
        } else {
            0nat
        }
    }
}

pub open spec fn run_count(runs: Seq<Run>, s: RunStatus) -> nat
    decreases runs.len(),
{
    if runs.len() == 0 {
        0
    } else {
        run_count(runs.drop_last(), s) + if runs.last().status == s {
            1nat
        } else {
            0nat
        }
    }
}

pub open spec fn token_sum(runs: Seq<Run>) -> nat
    decreases runs.len(),
{
    if runs.len() == 0 {
        0
    } else {
        token_sum(runs.drop_last()) + runs.last().metrics.total_tokens as nat
    }
}

/// Sum of end-to-end times of completed runs, a missing time counting 0.
pub open spec fn e2e_sum(runs: Seq<Run>) -> nat
    decreases runs.len(),
{
    if runs.len() == 0 {
        0
    } else {
        e2e_sum(runs.drop_last()) + if runs.last().status == RunStatus::Completed {
            match runs.last().metrics.end_to_end_ms {
                Some(v) => v as nat,
                None => 0nat,
            }
        } else {
            0nat
        }
    }
}

proof fn lemma_token_sum_bound(runs: Seq<Run>)
    ensures
        token_sum(runs) <= runs.len() * 0xffff_ffff,
    decreases runs.len(),
{
    if runs.len() > 0 {
        lemma_token_sum_bound(runs.drop_last());
    }
}

proof fn lemma_e2e_bound(runs: Seq<Run>)
    ensures
        e2e_sum(runs) <= run_count(runs, RunStatus::Completed) * 0xffff_ffff_ffff_ffff,
        run_count(runs, RunStatus::Completed) <= runs.len(),
    decreases runs.len(),
{
    if runs.len() > 0 {
        lemma_e2e_bound(runs.drop_last());
    }
}

impl Store {
    /// The snapshot's totals: crabs, busy crabs, running tasks, runs by status,
    /// the sum of total tokens, and the mean end-to-end time of completed runs
    /// (none when no run completed).
    pub fn status_summary(&self) -> (r: StatusSummary)
        requires
            self.runs@.len() <= 0xffff_ffff,
        ensures
            r.total_crabs == self.crabs@.len(),
            r.busy_crabs == busy_count(self.crabs@),
            r.running_tasks == running_task_count(self.tasks@),
            r.running_runs == run_count(self.runs@, RunStatus::Running),
            r.completed_runs == run_count(self.runs@, RunStatus::Completed),
            r.failed_runs == run_count(self.runs@, RunStatus::Failed),
            r.total_tokens == token_sum(self.runs@),
            r.avg_end_to_end_ms == (if run_count(self.runs@, RunStatus::Completed) == 0 {
                None
            } else {
                Some((e2e_sum(self.runs@) / run_count(self.runs@, RunStatus::Completed)) as u64)
            }),
    {
        let mut busy: usize = 0;
        let mut i: usize = 0;
        while i < self.crabs.len()
            invariant
                i <= self.crabs@.len(),
                busy == busy_count(self.crabs@.subrange(0, i as int)),
                busy <= i,
            decreases self.crabs@.len() - i,
        {
            proof {
                assert(self.crabs@.subrange(0, i + 1).drop_last() =~= self.crabs@.subrange(0, i as int));
            }
            if self.crabs[i].state == CrabState::Busy {
                busy = busy + 1;
            }
            i = i + 1;
        }
        let mut running_tasks: usize = 0;
        let mut t: usize = 0;
        while t < self.tasks.len()
            invariant
                t <= self.tasks@.len(),
                running_tasks == running_task_count(self.tasks@.subrange(0, t as int)),
                running_tasks <= t,
            decreases self.tasks@.len() - t,
        {
            proof {
                assert(self.tasks@.subrange(0, t + 1).drop_last() =~= self.tasks@.subrange(0, t as int));
            }
            if self.tasks[t].status == TaskStatus::Running {
                running_tasks = running_tasks + 1;
            }
            t = t + 1;
        }
        let mut running: usize = 0;
        let mut completed: usize = 0;
        let mut failed: usize = 0;
        let mut tokens: u64 = 0;
        let mut e2e: u128 = 0;
        let mut k: usize = 0;
        while k < self.runs.len()
            invariant
                k <= self.runs@.len(),
                self.runs@.len() <= 0xffff_ffff,
                running == run_count(self.runs@.subrange(0, k as int), RunStatus::Running),
                completed == run_count(self.runs@.subrange(0, k as int), RunStatus::Completed),
                failed == run_count(self.runs@.subrange(0, k as int), RunStatus::Failed),
                tokens == token_sum(self.runs@.subrange(0, k as int)),
                e2e == e2e_sum(self.runs@.subrange(0, k as int)),
                running <= k,
                completed <= k,
                failed <= k,
            decreases self.runs@.len() - k,
        {
            let ghost pre = self.runs@.subrange(0, k as int);
            let ghost next = self.runs@.subrange(0, k + 1);
            proof {
                assert(next.drop_last() =~= pre);
                lemma_token_sum_bound(next);
                lemma_e2e_bound(next);
                assert(token_sum(next) <= 0xffff_ffff * 0xffff_ffff) by (nonlinear_arith)
                    requires
                        token_sum(next) <= next.len() * 0xffff_ffff,
                        next.len() <= 0xffff_ffff,
                ;
                assert(e2e_sum(next) <= 0xffff_ffff * 0xffff_ffff_ffff_ffff) by (nonlinear_arith)
                    requires
                        e2e_sum(next) <= run_count(next, RunStatus::Completed) * 0xffff_ffff_ffff_ffff,
                        run_count(next, RunStatus::Completed) <= next.len(),
                        next.len() <= 0xffff_ffff,
                ;
            }
            let run = &self.runs[k];
            if run.status == RunStatus::Running {
                running = running + 1;
            }
            if run.status == RunStatus::Completed {
                completed = completed + 1;
                e2e = e2e + match run.metrics.end_to_end_ms {
                    Some(v) => v as u128,
                    None => 0,
                };
            }
            if run.status == RunStatus::Failed {
                failed = failed + 1;
            }
            tokens = tokens + run.metrics.total_tokens as u64;
            k = k + 1;
        }
        proof {
            assert(self.crabs@.subrange(0, i as int) =~= self.crabs@);
            assert(self.tasks@.subrange(0, t as int) =~= self.tasks@);
            assert(self.runs@.subrange(0, k as int) =~= self.runs@);
            lemma_e2e_bound(self.runs@);
        }
        let avg = if completed == 0 {
            None
        } else {
            proof {
                assert(e2e / (completed as u128) <= e2e_sum(self.runs@)) by (nonlinear_arith)
                    requires
                        completed >= 1,
                        e2e == e2e_sum(self.runs@),
                ;
                assert(e2e_sum(self.runs@) as int / (completed as int) <= 0xffff_ffff_ffff_ffff) by (nonlinear_arith)
                    requires
                        e2e_sum(self.runs@) <= completed * 0xffff_ffff_ffff_ffff,
                        completed >= 1,
                ;
            }
            Some((e2e / (completed as u128)) as u64)
        };
        StatusSummary {
            total_crabs: self.crabs.len(),
            busy_crabs: busy,
            running_tasks,
            running_runs: running,
            completed_runs: completed,
            failed_runs: failed,
            total_tokens: tokens,
            avg_end_to_end_ms: avg,
        }
    }
}

/// Splits `owner/name` at its first `/`.
pub fn parse_repo(repo: &str) -> (r: Result<(String, String), ApiError>)
    ensures
        match r {
            Ok((owner, name)) => exists|i: int|
                first_index_of(repo@, '/', i) && owner@ == repo@.subrange(0, i) && name@
                    == repo@.subrange(i + 1, repo@.len() as int),
            Err(e) => e.kind == crate::model::ErrorKind::BadRequest && forall|j: int|
                0 <= j < repo@.len() ==> repo@[j] != '/',
        },
{
    match find_char(repo, '/') {
        None => Err(ApiError::bad_request("repo must be in 'owner/repo' format")),
        Some(i) => {
            let n = repo.unicode_len();
            let owner = repo.substring_char(0, i).to_string();
            let name = repo.substring_char(i + 1, n).to_string();
            Ok((owner, name))
        },
    }
}

} // verus!

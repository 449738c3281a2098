//! What the cascade reads from a mission's history: the context map of
//! completed runs, a task's stored condition, and the accumulated context a
//! task receives when it is unblocked.

use vstd::prelude::*;
use crate::condition::ContextMap;
use crate::model::{Run, Task, TaskDep};
use crate::trusted::{json_field, json_string_field};
use crate::status::RunStatus;
use crate::store::{has_task, Store};
use crate::text::text_eq;

verus! {

/// The task with id `id`, when there is one.
pub open spec fn task_by_id(tasks: Seq<Task>, id: Seq<char>) -> Option<Task> {
    if has_task(tasks, id) {
        Some(tasks[choose|i: int| 0 <= i < tasks.len() && tasks[i].id@ == id])
    } else {
        None
    }
}

/// The step id under which run `r` contributes to mission `m`'s context: the
/// run completed and its task is a workflow step of `m`.
pub open spec fn run_step(r: Run, tasks: Seq<Task>, m: Seq<char>) -> Option<Seq<char>> {
    if r.status == RunStatus::Completed {
        match task_by_id(tasks, r.task_id@) {
            Some(t) => if t.mission_id@ == m {
                match t.step_id {
                    Some(s) => Some(s@),
                    None => None,
                }
            } else {
                None
            },
            None => None,
        }
    } else {
        None
    }
}

pub open spec fn summary_text(r: Run) -> Seq<char> {
    match r.summary {
        Some(s) => s@,
        None => Seq::empty(),
    }
}

/// When a run completed, 0 when unknown.
pub open spec fn stamp(r: Run) -> u64 {
    match r.completed_at_ms {
        Some(v) => v,
        None => 0,
    }
}

/// Run `a` completed after run `b`: later, or as late and later in store order.
pub open spec fn beats(runs: Seq<Run>, a: int, b: int) -> bool {
    stamp(runs[a]) > stamp(runs[b]) || (stamp(runs[a]) == stamp(runs[b]) && a > b)
}

/// The summary of run `k` carries a string field `result`.
pub open spec fn has_result(r: Run) -> bool {
    json_field(summary_text(r), "result"@) is Some
}

/// Run `k` is the latest completed run of its step in mission `m` (among
/// those with a `result` field when `need_result`).
pub open spec fn latest_of_step(runs: Seq<Run>, tasks: Seq<Task>, m: Seq<char>, k: int, need_result: bool) -> bool {
    &&& run_step(runs[k], tasks, m) is Some
    &&& (need_result ==> has_result(runs[k]))
    &&& forall|j: int|
        0 <= j < runs.len() && j != k && run_step(runs[j], tasks, m) == run_step(runs[k], tasks, m) && (
        need_result ==> has_result(runs[j])) ==> !beats(runs, j, k)
}

/// Value of key `key` in the context map of mission `m`, looking at the first
/// `n` runs: `<step>.summary` is the summary of the step's latest completed
/// run, `<step>.result` the `result` field of the latest completed run whose
/// summary is a JSON object with a string field `result`.
pub open spec fn context_upto(runs: Seq<Run>, tasks: Seq<Task>, m: Seq<char>, n: int, key: Seq<char>) -> Option<Seq<char>>
    decreases n,
{
    if n <= 0 || n > runs.len() {
        None
    } else {
        let k = n - 1;
        match run_step(runs[k], tasks, m) {
            Some(s) => if key == s + ".result"@ && latest_of_step(runs, tasks, m, k, true) {
                json_field(summary_text(runs[k]), "result"@)
            } else if key == s + ".summary"@ && latest_of_step(runs, tasks, m, k, false) {
                Some(summary_text(runs[k]))
            } else {
                context_upto(runs, tasks, m, n - 1, key)
            },
            None => context_upto(runs, tasks, m, n - 1, key),
        }
    }
}

/// Value of key `key` in the context map of mission `m`.
pub open spec fn context_value(runs: Seq<Run>, tasks: Seq<Task>, m: Seq<char>, key: Seq<char>) -> Option<Seq<char>> {
    context_upto(runs, tasks, m, runs.len() as int, key)
}

impl Store {
    /// The step id of task `id`'s record if it belongs to mission `m`.
    fn step_of_task_in(&self, id: &str, m: &str) -> (r: Option<String>)
        requires
            self.wf(),
        ensures
            match task_by_id(self.tasks@, id@) {
                Some(t) => if t.mission_id@ == m@ {
                    match t.step_id {
                        Some(s) => r == Some(s),
                        None => r is None,
                    }
                } else {
                    r is None
                },
                None => r is None,
            },
    {
        match self.find_task(id) {
            None => None,
            Some(i) => {
                proof {
                    let c = choose|c: int| 0 <= c < self.tasks@.len() && self.tasks@[c].id@ == id@;
                    assert(c == i);
                }
                if text_eq(self.tasks[i].mission_id.as_str(), m) {
                    crate::model::clone_text(&self.tasks[i].step_id)
                } else {
                    None
                }
            },
        }
    }

    /// Whether some other completed run of step `step` in mission `m` (with
    /// a `result` field when `need_result`) completed after run `i`.
    fn run_beaten(&self, i: usize, m: &str, step: &String, need_result: bool) -> (r: bool)
        requires
            self.wf(),
            i < self.runs@.len(),
            run_step(self.runs@[i as int], self.tasks@, m@) == Some(step@),
        ensures
            r == !(forall|j: int|
                0 <= j < self.runs@.len() && j != i && run_step(self.runs@[j], self.tasks@, m@)
                    == Some(step@) && (need_result ==> has_result(self.runs@[j])) ==> !beats(
                    self.runs@,
                    j,
                    i as int,
                )),
    {
        let si: u64 = match self.runs[i].completed_at_ms {
            Some(v) => v,
            None => 0,
        };
        let mut j: usize = 0;
        while j < self.runs.len()
            invariant
                self.wf(),
                i < self.runs@.len(),
                j <= self.runs@.len(),
                si == stamp(self.runs@[i as int]),
                forall|x: int|
                    0 <= x < j && x != i && run_step(self.runs@[x], self.tasks@, m@) == Some(step@) && (
                    need_result ==> has_result(self.runs@[x])) ==> !beats(self.runs@, x, i as int),
            decreases self.runs@.len() - j,
        {
            if j != i && self.runs[j].status == RunStatus::Completed {
                let sj: u64 = match self.runs[j].completed_at_ms {
                    Some(v) => v,
                    None => 0,
                };
                if sj > si || (sj == si && j > i) {
                    if let Some(sj_step) = self.step_of_task_in(self.runs[j].task_id.as_str(), m) {
                        if text_eq(sj_step.as_str(), step.as_str()) {
                            let qualifies = if need_result {
                                let summary = match &self.runs[j].summary {
                                    Some(x) => x.clone(),
                                    None => String::new(),
                                };
                                json_string_field(summary.as_str(), "result").is_some()
                            } else {
                                true
                            };
                            if qualifies {
                                proof {
                                    assert(beats(self.runs@, j as int, i as int));
                                }
                                return true;
                            }
                        }
                    }
                }
            }
            j = j + 1;
        }
        false
    }

    /// The context map of mission `mission_id`.
    pub fn build_context_map(&self, mission_id: &str) -> (r: ContextMap)
        requires
            self.wf(),
        ensures
            forall|k: Seq<char>|
                r.get_spec(k) == context_value(self.runs@, self.tasks@, mission_id@, k),
    {
        let mut map = ContextMap::new();
        let mut i: usize = 0;
        while i < self.runs.len()
            invariant
                self.wf(),
                i <= self.runs@.len(),
                forall|k: Seq<char>|
                    map.get_spec(k) == context_upto(self.runs@, self.tasks@, mission_id@, i as int, k),
            decreases self.runs@.len() - i,
        {
            if self.runs[i].status == RunStatus::Completed {
                if let Some(step) = self.step_of_task_in(self.runs[i].task_id.as_str(), mission_id) {
                    let summary = match &self.runs[i].summary {
                        Some(s) => s.clone(),
                        None => String::new(),
                    };
                    let latest = !self.run_beaten(i, mission_id, &step, false);
                    if latest {
                        let mut key = step.clone();
                        key.append(".summary");
                        map.insert(key, summary.clone());
                    }
                    let ghost mid_map = map;
                    let res = json_string_field(summary.as_str(), "result");
                    if let Some(v) = res {
                        if !self.run_beaten(i, mission_id, &step, true) {
                            let mut rkey = step.clone();
                            rkey.append(".result");
                            map.insert(rkey, v);
                        }
                    }
                    proof {
                        reveal_strlit(".summary");
                        reveal_strlit(".result");
                        assert forall|k: Seq<char>| map.get_spec(k) == context_upto(
                            self.runs@,
                            self.tasks@,
                            mission_id@,
                            i + 1,
                            k,
                        ) by {
                            if k == step@ + ".result"@ {
                                assert(k != step@ + ".summary"@) by {
                                    assert(k[k.len() - 2] != (step@ + ".summary"@)[k.len() - 2]);
                                }
                            }
                        }
                    }
                }
            }
            i = i + 1;
        }
        map
    }

    /// The condition stored in task `t`'s context: the string field
    /// `_condition` of the context when it is a JSON object with one.
    pub fn task_condition(&self, t: usize) -> (r: Option<String>)
        requires
            t < self.tasks@.len(),
        ensures
            match self.tasks@[t as int].context {
                Some(c) => match r {
                    Some(v) => json_field(c@, "_condition"@) == Some(v@),
                    None => json_field(c@, "_condition"@) is None,
                },
                None => r is None,
            },
    {
        match &self.tasks[t].context {
            Some(c) => json_string_field(c.as_str(), "_condition"),
            None => None,
        }
    }
}

/// The summary of the last completed run of task `u`, `(no summary)` when it
/// has none or its summary is null.
pub open spec fn dep_summary(runs: Seq<Run>, u: Seq<char>) -> Seq<char>
    decreases runs.len(),
{
    if runs.len() == 0 {
        "(no summary)"@
    } else if runs.last().task_id@ == u && runs.last().status == RunStatus::Completed {
        match runs.last().summary {
            Some(s) => s@,
            None => "(no summary)"@,
        }
    } else {
        dep_summary(runs.drop_last(), u)
    }
}

/// Task `t` waits directly for task `u`.
pub open spec fn is_dep(deps: Seq<TaskDep>, t: Seq<char>, u: Seq<char>) -> bool {
    exists|e: int| 0 <= e < deps.len() && deps[e].task_id@ == t && deps[e].depends_on_task_id@ == u
}

/// `## <step id or unknown>` and the dependency's summary on the next line.
pub open spec fn section_of(u: Task, runs: Seq<Run>) -> Seq<char> {
    "## "@ + (match u.step_id {
        Some(s) => s@,
        None => "unknown"@,
    }) + "\n"@ + dep_summary(runs, u.id@)
}

/// One section per direct dependency of task `t`, in creation order, separated
/// by blank lines.
pub open spec fn accumulated(tasks: Seq<Task>, deps: Seq<TaskDep>, runs: Seq<Run>, t: Seq<char>) -> Seq<char>
    decreases tasks.len(),
{
    if tasks.len() == 0 {
        Seq::empty()
    } else {
        let prev = accumulated(tasks.drop_last(), deps, runs, t);
        if is_dep(deps, t, tasks.last().id@) {
            if prev.len() == 0 {
                section_of(tasks.last(), runs)
            } else {
                prev + "\n\n"@ + section_of(tasks.last(), runs)
            }
        } else {
            prev
        }
    }
}

impl Store {
    pub fn has_dep(&self, t: &str, u: &str) -> (r: bool)
        ensures
            r == is_dep(self.deps@, t@, u@),
    {
        let mut e: usize = 0;
        while e < self.deps.len()
            invariant
                e <= self.deps@.len(),
                forall|x: int|
                    0 <= x < e ==> !(self.deps@[x].task_id@ == t@ && self.deps@[x].depends_on_task_id@
                        == u@),
            decreases self.deps@.len() - e,
        {
            if text_eq(self.deps[e].task_id.as_str(), t) && text_eq(
                self.deps[e].depends_on_task_id.as_str(),
                u,
            ) {
                return true;
            }
            e = e + 1;
        }
        false
    }

    pub fn dependency_summary(&self, u: &str) -> (r: String)
        ensures
            r@ == dep_summary(self.runs@, u@),
    {
        let mut i: usize = self.runs.len();
        proof {
            assert(self.runs@.subrange(0, i as int) =~= self.runs@);
        }
        while i > 0
            invariant
                i <= self.runs@.len(),
                dep_summary(self.runs@, u@) == dep_summary(self.runs@.subrange(0, i as int), u@),
            decreases i,
        {
            proof {
                assert(self.runs@.subrange(0, i as int).drop_last() =~= self.runs@.subrange(0, i - 1));
            }
            if self.runs[i - 1].status == RunStatus::Completed && text_eq(
                self.runs[i - 1].task_id.as_str(),
                u,
            ) {
                return match &self.runs[i - 1].summary {
                    Some(s) => s.clone(),
                    None => "(no summary)".to_string(),
                };
            }
            i = i - 1;
        }
        "(no summary)".to_string()
    }

    /// The context a task receives when it is unblocked: the summaries of its
    /// direct dependencies.
    pub fn build_accumulated_context(&self, t: &str) -> (r: String)
        ensures
            r@ == accumulated(self.tasks@, self.deps@, self.runs@, t@),
    {
        let mut out = String::new();
        let mut i: usize = 0;
        while i < self.tasks.len()
            invariant
                i <= self.tasks@.len(),
                out@ == accumulated(self.tasks@.subrange(0, i as int), self.deps@, self.runs@, t@),
            decreases self.tasks@.len() - i,
        {
            proof {
                assert(self.tasks@.subrange(0, i + 1).drop_last() =~= self.tasks@.subrange(0, i as int));
            }
            let u = &self.tasks[i];
            if self.has_dep(t, u.id.as_str()) {
                if out.unicode_len() > 0 {
                    out.append("\n\n");
                }
                out.append("## ");
                match &u.step_id {
                    Some(sid) => out.append(sid.as_str()),
                    None => out.append("unknown"),
                }
                out.append("\n");
                let summary = self.dependency_summary(u.id.as_str());
                out.append(summary.as_str());
                proof {
                    assert(out@ =~= accumulated(self.tasks@.subrange(0, i + 1), self.deps@, self.runs@, t@));
                }
            }
            i = i + 1;
        }
        proof {
            assert(self.tasks@.subrange(0, i as int) =~= self.tasks@);
        }
        out
    }
}

} // verus!

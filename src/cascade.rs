//! The dependency cascade: what follows when a workflow task reaches a
//! terminal status.

use vstd::prelude::*;
use crate::condition::{condition_holds, evaluate_condition, ContextMap};
use crate::context::accumulated;
use crate::model::{Task, TaskDep};
use crate::trusted::json_field;
use crate::records::task_with_status;
use crate::status::TaskStatus;
use crate::store::Store;
use crate::text::text_eq;

verus! {

/// How many tasks have status `s`.
pub open spec fn count_with(tasks: Seq<Task>, s: TaskStatus) -> nat
    decreases tasks.len(),
{
    if tasks.len() == 0 {
        0
    } else {
        count_with(tasks.drop_last(), s) + if tasks.last().status == s {
            1nat
        } else {
            0nat
        }
    }
}

pub proof fn lemma_count_update(tasks: Seq<Task>, i: int, x: Task, s: TaskStatus)
    requires
        0 <= i < tasks.len(),
    ensures
        count_with(tasks.update(i, x), s) + (if tasks[i].status == s {
            1nat
        } else {
            0nat
        }) == count_with(tasks, s) + (if x.status == s {
            1nat
        } else {
            0nat
        }),
        count_with(tasks, s) <= tasks.len(),
    decreases tasks.len(),
{
    if i == tasks.len() - 1 {
        assert(tasks.update(i, x).drop_last() =~= tasks.drop_last());
        lemma_count_bound(tasks.drop_last(), s);
    } else {
        lemma_count_update(tasks.drop_last(), i, x, s);
        assert(tasks.update(i, x).drop_last() =~= tasks.drop_last().update(i, x));
    }
}

pub proof fn lemma_count_bound(tasks: Seq<Task>, s: TaskStatus)
    ensures
        count_with(tasks, s) <= tasks.len(),
    decreases tasks.len(),
{
    if tasks.len() > 0 {
        lemma_count_bound(tasks.drop_last(), s);
    }
}

/// Every task with id `id` has status `s`.
pub open spec fn all_with_id_have(tasks: Seq<Task>, id: Seq<char>, s: TaskStatus) -> bool {
    forall|t: int| 0 <= t < tasks.len() && tasks[t].id@ == id ==> tasks[t].status == s
}


/// Task `t` changed from another status to `s` between `before` and `after`.
pub open spec fn turned(before: Seq<Task>, after: Seq<Task>, t: int, s: TaskStatus) -> bool {
    0 <= t < before.len() && before[t].status != s && after[t].status == s
}

/// Task id `t` depends on task id `start` through a chain of at most `n + 1`
/// dependency edges.
pub open spec fn reaches(deps: Seq<TaskDep>, t: Seq<char>, start: Seq<char>, n: nat) -> bool
    decreases n,
{
    exists|e: int|
        0 <= e < deps.len() && #[trigger] deps[e].task_id@ == t && (deps[e].depends_on_task_id@ == start
            || (n > 0 && reaches(deps, deps[e].depends_on_task_id@, start, (n - 1) as nat)))
}

/// Task id `t` transitively depends on task id `start`.
pub open spec fn depends_on_transitively(deps: Seq<TaskDep>, t: Seq<char>, start: Seq<char>) -> bool {
    exists|n: nat| #[trigger] reaches(deps, t, start, n)
}

/// What spreading a failure from task `start` did: every task that
/// transitively depends on it is failed, a task changed only if it
/// transitively depends on it, and a changed task only became failed.
pub open spec fn failure_spread(before: Store, after: Store, start: Seq<char>, now: u64) -> bool {
    &&& after.wf()
    &&& after.colonies == before.colonies
    &&& after.crabs == before.crabs
    &&& after.missions == before.missions
    &&& after.deps == before.deps
    &&& after.runs == before.runs
    &&& after.tasks@.len() == before.tasks@.len()
    &&& (forall|t: int|
        0 <= t < before.tasks@.len() ==> #[trigger] after.tasks@[t] == before.tasks@[t]
            || (before.tasks@[t].status != TaskStatus::Failed && after.tasks@[t]
            == task_with_status(before.tasks@[t], TaskStatus::Failed, now)))
    &&& (forall|t: int|
        0 <= t < after.tasks@.len() && depends_on_transitively(after.deps@, #[trigger] after.tasks@[t].id@, start)
            ==> after.tasks@[t].status == TaskStatus::Failed)
    &&& (forall|t: int|
        0 <= t < after.tasks@.len() && #[trigger] after.tasks@[t] != before.tasks@[t]
            ==> depends_on_transitively(after.deps@, after.tasks@[t].id@, start))
}

/// How many edges are not yet followed.
pub open spec fn unused_count(used: Seq<bool>) -> nat
    decreases used.len(),
{
    if used.len() == 0 {
        0
    } else {
        unused_count(used.drop_last()) + if used.last() {
            0nat
        } else {
            1nat
        }
    }
}

proof fn lemma_unused_update(used: Seq<bool>, e: int)
    requires
        0 <= e < used.len(),
        !used[e],
    ensures
        unused_count(used.update(e, true)) + 1 == unused_count(used),
    decreases used.len(),
{
    if e == used.len() - 1 {
        assert(used.update(e, true).drop_last() =~= used.drop_last());
    } else {
        lemma_unused_update(used.drop_last(), e);
        assert(used.update(e, true).drop_last() =~= used.drop_last().update(e, true));
    }
}

/// Id `w` is where the failure started or depends on it transitively.
pub open spec fn failure_source(deps: Seq<TaskDep>, w: Seq<char>, start: Seq<char>) -> bool {
    w == start || depends_on_transitively(deps, w, start)
}

/// One more edge from a source extends the chain.
proof fn lemma_reach_step(deps: Seq<TaskDep>, e: int, start: Seq<char>)
    requires
        0 <= e < deps.len(),
        failure_source(deps, deps[e].depends_on_task_id@, start),
    ensures
        depends_on_transitively(deps, deps[e].task_id@, start),
{
    let x = deps[e].depends_on_task_id@;
    if x == start {
        assert(reaches(deps, deps[e].task_id@, start, 0));
    } else {
        let n = choose|n: nat| #[trigger] reaches(deps, x, start, n);
        assert(reaches(deps, deps[e].task_id@, start, n + 1));
    }
}

/// When the pass is over, every chain leads through followed edges.
proof fn lemma_reach_closed(
    deps: Seq<TaskDep>,
    used: Seq<bool>,
    processed: Set<Seq<char>>,
    start: Seq<char>,
    t: Seq<char>,
    n: nat,
)
    requires
        used.len() == deps.len(),
        processed.contains(start),
        forall|e: int| 0 <= e < deps.len() && #[trigger] used[e] ==> processed.contains(deps[e].task_id@),
        forall|x: Seq<char>, e: int|
            #![trigger processed.contains(x), deps[e]]
            processed.contains(x) && 0 <= e < deps.len() && deps[e].depends_on_task_id@ == x ==> used[e],
        reaches(deps, t, start, n),
    ensures
        exists|e: int| 0 <= e < deps.len() && deps[e].task_id@ == t && used[e],
    decreases n,
{
    let e = choose|e: int|
        0 <= e < deps.len() && #[trigger] deps[e].task_id@ == t && (deps[e].depends_on_task_id@ == start
            || (n > 0 && reaches(deps, deps[e].depends_on_task_id@, start, (n - 1) as nat)));
    let x = deps[e].depends_on_task_id@;
    if x != start {
        lemma_reach_closed(deps, used, processed, start, x, (n - 1) as nat);
        let f = choose|f: int| 0 <= f < deps.len() && deps[f].task_id@ == x && used[f];
        assert(processed.contains(x));
    }
    assert(used[e]);
}

impl Store {
    /// Marks failed every task that transitively depends on task `start`.
    pub fn propagate_failure(&mut self, start: &str, now: u64)
        requires
            old(self).wf(),
        ensures
            failure_spread(*old(self), *final(self), start@, now),
    {
        let mut used: Vec<bool> = Vec::new();
        let mut z: usize = 0;
        while z < self.deps.len()
            invariant
                z <= self.deps@.len(),
                used@.len() == z,
                forall|e: int| 0 <= e < z ==> !used@[e],
            decreases self.deps@.len() - z,
        {
            used.push(false);
            z = z + 1;
        }
        let mut work: Vec<String> = Vec::new();
        work.push(start.to_string());
        proof {
            assert(work@[0]@ == start@);
        }
        let ghost mut processed: Set<Seq<char>> = Set::empty();
        while work.len() > 0
            invariant
                self.wf(),
                self.colonies == old(self).colonies,
                self.crabs == old(self).crabs,
                self.missions == old(self).missions,
                self.deps == old(self).deps,
                self.runs == old(self).runs,
                self.tasks@.len() == old(self).tasks@.len(),
                used@.len() == self.deps@.len(),
                forall|t: int|
                    0 <= t < old(self).tasks@.len() ==> #[trigger] self.tasks@[t] == old(self).tasks@[t]
                        || (old(self).tasks@[t].status != TaskStatus::Failed && self.tasks@[t]
                        == task_with_status(old(self).tasks@[t], TaskStatus::Failed, now)),
                forall|t: int|
                    0 <= t < self.tasks@.len() && #[trigger] self.tasks@[t] != old(self).tasks@[t]
                        ==> depends_on_transitively(self.deps@, self.tasks@[t].id@, start@),
                forall|e: int|
                    0 <= e < self.deps@.len() && #[trigger] used@[e] ==> all_with_id_have(
                        self.tasks@,
                        self.deps@[e].task_id@,
                        TaskStatus::Failed,
                    ) && (processed.contains(self.deps@[e].task_id@) || exists|w: int|
                        0 <= w < work@.len() && work@[w]@ == self.deps@[e].task_id@),
                forall|x: Seq<char>, e: int|
                    #![trigger processed.contains(x), self.deps@[e]]
                    processed.contains(x) && 0 <= e < self.deps@.len() && self.deps@[e].depends_on_task_id@
                        == x ==> used@[e],
                processed.contains(start@) || exists|w: int| 0 <= w < work@.len() && work@[w]@ == start@,
                forall|w: int|
                    0 <= w < work@.len() ==> failure_source(self.deps@, #[trigger] work@[w]@, start@),
                forall|x: Seq<char>| #[trigger] processed.contains(x) ==> failure_source(self.deps@, x, start@),
            decreases unused_count(used@), work@.len(),
        {
            let ghost count_before = unused_count(used@);
            let ghost work_before = work@;
            let x = work.pop().unwrap();
            proof {
                assert(work_before =~= work@.push(x));
                assert(failure_source(self.deps@, work_before[work_before.len() - 1]@, start@));
            }
            let ghost pushed_from = work@.len();
            let mut e: usize = 0;
            while e < self.deps.len()
                invariant
                    self.wf(),
                    self.colonies == old(self).colonies,
                    self.crabs == old(self).crabs,
                    self.missions == old(self).missions,
                    self.deps == old(self).deps,
                    self.runs == old(self).runs,
                    self.tasks@.len() == old(self).tasks@.len(),
                    used@.len() == self.deps@.len(),
                    e <= self.deps@.len(),
                    work@.len() >= pushed_from,
                    work@.subrange(0, pushed_from as int) == work_before.subrange(0, pushed_from as int),
                    pushed_from + 1 == work_before.len(),
                    work_before[pushed_from as int] == x,
                    failure_source(self.deps@, x@, start@),
                    unused_count(used@) <= count_before,
                    unused_count(used@) == count_before ==> work@.len() == pushed_from,
                    forall|t: int|
                        0 <= t < old(self).tasks@.len() ==> #[trigger] self.tasks@[t] == old(self).tasks@[t]
                            || (old(self).tasks@[t].status != TaskStatus::Failed && self.tasks@[t]
                            == task_with_status(old(self).tasks@[t], TaskStatus::Failed, now)),
                    forall|t: int|
                        0 <= t < self.tasks@.len() && #[trigger] self.tasks@[t] != old(self).tasks@[t]
                            ==> depends_on_transitively(self.deps@, self.tasks@[t].id@, start@),
                    forall|f: int|
                        0 <= f < self.deps@.len() && #[trigger] used@[f] ==> all_with_id_have(
                            self.tasks@,
                            self.deps@[f].task_id@,
                            TaskStatus::Failed,
                        ) && (processed.contains(self.deps@[f].task_id@) || self.deps@[f].task_id@ == x@
                            || exists|w: int| 0 <= w < work@.len() && work@[w]@ == self.deps@[f].task_id@),
                    forall|y: Seq<char>, f: int|
                        #![trigger processed.contains(y), self.deps@[f]]
                        processed.contains(y) && 0 <= f < self.deps@.len() && self.deps@[f].depends_on_task_id@
                            == y ==> used@[f],
                    forall|f: int|
                        0 <= f < e && #[trigger] self.deps@[f].depends_on_task_id@ == x@ ==> used@[f],
                    processed.contains(start@) || x@ == start@ || exists|w: int|
                        0 <= w < work@.len() && work@[w]@ == start@,
                    forall|w: int|
                        0 <= w < work@.len() ==> failure_source(self.deps@, #[trigger] work@[w]@, start@),
                    forall|y: Seq<char>| #[trigger] processed.contains(y) ==> failure_source(self.deps@, y, start@),
                decreases self.deps@.len() - e,
            {
                if !used[e] && text_eq(self.deps[e].depends_on_task_id.as_str(), x.as_str()) {
                    let ghost used_prev = used@;
                    let ghost tasks_prev = self.tasks@;
                    let ghost work_prev = work@;
                    used.set(e, true);
                    proof {
                        lemma_unused_update(used_prev, e as int);
                        lemma_reach_step(self.deps@, e as int, start@);
                    }
                    let tid = self.deps[e].task_id.clone();
                    if let Some(t) = self.find_task(tid.as_str()) {
                        if self.tasks[t].status != TaskStatus::Failed {
                            self.tasks[t].status = TaskStatus::Failed;
                            self.tasks[t].updated_at_ms = now;
                            proof {
                                assert(self.tasks@ =~= tasks_prev.update(
                                    t as int,
                                    task_with_status(tasks_prev[t as int], TaskStatus::Failed, now),
                                ));
                            }
                        }
                        proof {
                            lemma_unique_task_index(self.tasks@, t as int);
                            lemma_unique_task_index(tasks_prev, t as int);
                        }
                    }
                    work.push(tid);
                    proof {
                        assert(work@[work@.len() - 1]@ == self.deps@[e as int].task_id@);
                        assert(work@.subrange(0, pushed_from as int) =~= work_prev.subrange(0, pushed_from as int));
                        if exists|w: int| 0 <= w < work_prev.len() && work_prev[w]@ == start@ {
                            let w = choose|w: int| 0 <= w < work_prev.len() && work_prev[w]@ == start@;
                            assert(work@[w] == work_prev[w]);
                        }
                        assert forall|w: int| 0 <= w < work@.len() implies failure_source(
                            self.deps@,
                            #[trigger] work@[w]@,
                            start@,
                        ) by {
                            if w < work_prev.len() {
                                assert(work@[w] == work_prev[w]);
                            }
                        }
                        assert forall|f: int|
                            0 <= f < self.deps@.len() && #[trigger] used@[f] implies all_with_id_have(
                                self.tasks@,
                                self.deps@[f].task_id@,
                                TaskStatus::Failed,
                            ) && (processed.contains(self.deps@[f].task_id@) || self.deps@[f].task_id@ == x@
                                || exists|w: int| 0 <= w < work@.len() && work@[w]@ == self.deps@[f].task_id@) by {
                            if f != e {
                                assert(used_prev[f]);
                                if exists|w: int| 0 <= w < work_prev.len() && work_prev[w]@ == self.deps@[f].task_id@ {
                                    let w = choose|w: int| 0 <= w < work_prev.len() && work_prev[w]@ == self.deps@[f].task_id@;
                                    assert(work@[w] == work_prev[w]);
                                }
                                assert forall|u: int| 0 <= u < self.tasks@.len() && self.tasks@[u].id@ == self.deps@[f].task_id@
                                    implies self.tasks@[u].status == TaskStatus::Failed by {
                                    assert(tasks_prev[u].status == TaskStatus::Failed);
                                }
                            } else {
                                assert(work@[work@.len() - 1]@ == self.deps@[f].task_id@);
                            }
                        }
                        assert forall|u: int|
                            0 <= u < self.tasks@.len() && #[trigger] self.tasks@[u] != old(self).tasks@[u]
                            implies depends_on_transitively(self.deps@, self.tasks@[u].id@, start@) by {
                            if self.tasks@[u] == tasks_prev[u] {
                            } else {
                                assert(self.tasks@[u].id@ == self.deps@[e as int].task_id@);
                            }
                        }
                    }
                }
                e = e + 1;
            }
            proof {
                processed = processed.insert(x@);
                assert forall|f: int|
                    0 <= f < self.deps@.len() && #[trigger] used@[f] implies all_with_id_have(
                        self.tasks@,
                        self.deps@[f].task_id@,
                        TaskStatus::Failed,
                    ) && (processed.contains(self.deps@[f].task_id@) || exists|w: int|
                        0 <= w < work@.len() && work@[w]@ == self.deps@[f].task_id@) by {}
            }
        }
        proof {
            assert forall|t: int|
                0 <= t < self.tasks@.len() && depends_on_transitively(self.deps@, #[trigger] self.tasks@[t].id@, start@)
                implies self.tasks@[t].status == TaskStatus::Failed by {
                let n = choose|n: nat| #[trigger] reaches(self.deps@, self.tasks@[t].id@, start@, n);
                lemma_reach_closed(self.deps@, used@, processed, start@, self.tasks@[t].id@, n);
                let f = choose|f: int| 0 <= f < self.deps@.len() && self.deps@[f].task_id@ == self.tasks@[t].id@ && used@[f];
            }
        }
    }
}

/// With unique ids, index `t` is the only task with its id.
pub proof fn lemma_unique_task_index(tasks: Seq<Task>, t: int)
    requires
        crate::store::task_ids_unique(tasks),
        0 <= t < tasks.len(),
    ensures
        forall|u: int| 0 <= u < tasks.len() && tasks[u].id@ == tasks[t].id@ ==> u == t,
{
}


/// Every existing task that `t` waits for directly is completed or skipped.
pub open spec fn deps_resolved(tasks: Seq<Task>, deps: Seq<TaskDep>, t: Seq<char>) -> bool {
    forall|e: int, u: int|
        #![trigger deps[e], tasks[u]]
        0 <= e < deps.len() && deps[e].task_id@ == t && 0 <= u < tasks.len() && tasks[u].id@
            == deps[e].depends_on_task_id@ ==> crate::status::task_is_resolved(tasks[u].status)
}

/// The condition stored in a task's context, if any.
pub open spec fn stored_condition(t: Task) -> Option<Seq<char>> {
    match t.context {
        Some(c) => json_field(c@, "_condition"@),
        None => None,
    }
}

/// How the cascade may change one task: a blocked task whose dependencies are
/// all resolved is queued with the accumulated context when its condition is
/// absent or holds, or skipped when it does not hold.
pub open spec fn unblock_step(
    before: Task,
    after: Task,
    tasks: Seq<Task>,
    deps: Seq<TaskDep>,
    runs: Seq<crate::model::Run>,
    ctx: ContextMap,
    now: u64,
) -> bool {
    ||| after == before
    ||| {
        &&& before.status == TaskStatus::Blocked
        &&& deps_resolved(tasks, deps, before.id@)
        &&& match stored_condition(before) {
            Some(c) => !condition_holds(c, ctx) && after == task_with_status(
                before,
                TaskStatus::Skipped,
                now,
            ),
            None => false,
        }
    }
    ||| {
        &&& before.status == TaskStatus::Blocked
        &&& deps_resolved(tasks, deps, before.id@)
        &&& (match stored_condition(before) {
            Some(c) => condition_holds(c, ctx),
            None => true,
        })
        &&& after.status == TaskStatus::Queued
        &&& after.context matches Some(a) && a@ == accumulated(tasks, deps, runs, before.id@)
        &&& after == (Task {
            status: TaskStatus::Queued,
            context: after.context,
            updated_at_ms: now,
            ..before
        })
    }
}

/// Two task lists that agree on ids and step ids.
pub open spec fn same_shape(a: Seq<Task>, b: Seq<Task>) -> bool {
    &&& a.len() == b.len()
    &&& forall|i: int| 0 <= i < a.len() ==> #[trigger] a[i].id == b[i].id && a[i].step_id == b[i].step_id
}

pub proof fn lemma_accumulated_shape(
    a: Seq<Task>,
    b: Seq<Task>,
    deps: Seq<TaskDep>,
    runs: Seq<crate::model::Run>,
    t: Seq<char>,
)
    requires
        same_shape(a, b),
    ensures
        accumulated(a, deps, runs, t) == accumulated(b, deps, runs, t),
    decreases a.len(),
{
    if a.len() > 0 {
        assert(a.last().id == b.last().id);
        lemma_accumulated_shape(a.drop_last(), b.drop_last(), deps, runs, t);
    }
}

impl Store {
    /// Whether every existing dependency of task `t` is completed or skipped.
    pub fn dependencies_resolved(&self, t: &str) -> (r: bool)
        requires
            self.wf(),
        ensures
            r == deps_resolved(self.tasks@, self.deps@, t@),
    {
        let mut e: usize = 0;
        while e < self.deps.len()
            invariant
                self.wf(),
                e <= self.deps@.len(),
                forall|f: int, u: int|
                    #![trigger self.deps@[f], self.tasks@[u]]
                    0 <= f < e && self.deps@[f].task_id@ == t@ && 0 <= u < self.tasks@.len()
                        && self.tasks@[u].id@ == self.deps@[f].depends_on_task_id@
                        ==> crate::status::task_is_resolved(self.tasks@[u].status),
            decreases self.deps@.len() - e,
        {
            if text_eq(self.deps[e].task_id.as_str(), t) {
                if let Some(u) = self.find_task(self.deps[e].depends_on_task_id.as_str()) {
                    let st = self.tasks[u].status;
                    if !(st == TaskStatus::Completed || st == TaskStatus::Skipped) {
                        return false;
                    }
                    proof {
                        lemma_unique_task_index(self.tasks@, u as int);
                    }
                }
            }
            e = e + 1;
        }
        true
    }
}

pub proof fn lemma_resolved_persists(
    tasks: Seq<Task>,
    v: int,
    x: Task,
    deps: Seq<TaskDep>,
    t: Seq<char>,
)
    requires
        crate::store::task_ids_unique(tasks),
        0 <= v < tasks.len(),
        tasks[v].status == TaskStatus::Blocked,
        x.id == tasks[v].id,
        deps_resolved(tasks, deps, t),
    ensures
        deps_resolved(tasks.update(v, x), deps, t),
{
    let n = tasks.update(v, x);
    assert forall|e: int, u: int|
        #![trigger deps[e], n[u]]
        0 <= e < deps.len() && deps[e].task_id@ == t && 0 <= u < n.len() && n[u].id@
            == deps[e].depends_on_task_id@ implies crate::status::task_is_resolved(n[u].status) by {
        assert(tasks[u].id == n[u].id);
        assert(crate::status::task_is_resolved(tasks[u].status));
    }
}


/// Task `tid` waits directly for some task whose id is on the work list.
pub open spec fn waits_on_pending(deps: Seq<TaskDep>, work: Seq<String>, tid: Seq<char>) -> bool {
    exists|e: int, w: int|
        0 <= e < deps.len() && deps[e].task_id@ == tid && 0 <= w < work.len() && work[w]@
            == deps[e].depends_on_task_id@
}

/// Every task that waits directly for `x` (through the first `bound` edges)
/// and is still blocked either has an unresolved dependency or waits for a
/// task on the work list.
pub open spec fn settled_upto(
    tasks: Seq<Task>,
    deps: Seq<TaskDep>,
    work: Seq<String>,
    x: Seq<char>,
    bound: int,
) -> bool {
    forall|e: int, t: int|
        #![trigger deps[e], tasks[t]]
        0 <= e < bound && e < deps.len() && deps[e].depends_on_task_id@ == x && 0 <= t < tasks.len()
            && tasks[t].id@ == deps[e].task_id@ && tasks[t].status == TaskStatus::Blocked ==> !deps_resolved(
            tasks,
            deps,
            tasks[t].id@,
        ) || waits_on_pending(deps, work, tasks[t].id@)
}

/// No blocked task that waits directly for `x` has all its dependencies resolved.
pub open spec fn settled(tasks: Seq<Task>, deps: Seq<TaskDep>, x: Seq<char>) -> bool {
    settled_upto(tasks, deps, Seq::empty(), x, deps.len() as int)
}

/// Changing blocked task `v` keeps every other task's dependencies as resolved
/// as they were, unless `v` became resolved and the task waits for it.
pub proof fn lemma_resolved_after_change(
    tasks: Seq<Task>,
    v: int,
    x: Task,
    deps: Seq<TaskDep>,
    tid: Seq<char>,
)
    requires
        crate::store::task_ids_unique(tasks),
        0 <= v < tasks.len(),
        tasks[v].status == TaskStatus::Blocked,
        x.id == tasks[v].id,
        deps_resolved(tasks.update(v, x), deps, tid),
    ensures
        deps_resolved(tasks, deps, tid) || (crate::status::task_is_resolved(x.status) && is_dep_of(
            deps,
            tid,
            x.id@,
        )),
{
    let n = tasks.update(v, x);
    if !deps_resolved(tasks, deps, tid) {
        let (e, u) = choose|e: int, u: int|
            #![trigger deps[e], tasks[u]]
            !(0 <= e < deps.len() && deps[e].task_id@ == tid && 0 <= u < tasks.len() && tasks[u].id@
                == deps[e].depends_on_task_id@ ==> crate::status::task_is_resolved(tasks[u].status));
        assert(n[u].id == tasks[u].id);
        if u != v {
            assert(n[u] == tasks[u]);
        }
    }
}

/// Edge: `t` waits directly for `u`.
pub open spec fn is_dep_of(deps: Seq<TaskDep>, t: Seq<char>, u: Seq<char>) -> bool {
    exists|e: int| 0 <= e < deps.len() && deps[e].task_id@ == t && deps[e].depends_on_task_id@ == u
}

/// A task turning from blocked to a status that is not resolved changes no
/// other task's readiness.
pub proof fn lemma_resolved_same(tasks: Seq<Task>, v: int, x: Task, deps: Seq<TaskDep>, tid: Seq<char>)
    requires
        crate::store::task_ids_unique(tasks),
        0 <= v < tasks.len(),
        tasks[v].status == TaskStatus::Blocked,
        x.id == tasks[v].id,
        !crate::status::task_is_resolved(x.status),
    ensures
        deps_resolved(tasks.update(v, x), deps, tid) == deps_resolved(tasks, deps, tid),
{
    let n = tasks.update(v, x);
    if deps_resolved(tasks, deps, tid) {
        lemma_resolved_persists(tasks, v, x, deps, tid);
    }
    if deps_resolved(n, deps, tid) {
        lemma_resolved_after_change(tasks, v, x, deps, tid);
    }
}


/// Every id on `small` is also on `big`.
pub open spec fn covers(big: Seq<String>, small: Seq<String>) -> bool {
    forall|w: int| 0 <= w < small.len() ==> exists|v: int| 0 <= v < big.len() && big[v]@ == #[trigger] small[w]@
}

pub proof fn lemma_settled_more_work(
    tasks: Seq<Task>,
    deps: Seq<TaskDep>,
    small: Seq<String>,
    big: Seq<String>,
    y: Seq<char>,
    bound: int,
)
    requires
        settled_upto(tasks, deps, small, y, bound),
        covers(big, small),
    ensures
        settled_upto(tasks, deps, big, y, bound),
{
    assert forall|e: int, t: int|
        #![trigger deps[e], tasks[t]]
        0 <= e < bound && e < deps.len() && deps[e].depends_on_task_id@ == y && 0 <= t < tasks.len()
            && tasks[t].id@ == deps[e].task_id@ && tasks[t].status == TaskStatus::Blocked implies !deps_resolved(
            tasks,
            deps,
            tasks[t].id@,
        ) || waits_on_pending(deps, big, tasks[t].id@) by {
        if deps_resolved(tasks, deps, tasks[t].id@) {
            let (e2, w) = choose|e2: int, w: int|
                0 <= e2 < deps.len() && deps[e2].task_id@ == tasks[t].id@ && 0 <= w < small.len()
                    && small[w]@ == deps[e2].depends_on_task_id@;
            let v = choose|v: int| 0 <= v < big.len() && big[v]@ == small[w]@;
        }
    }
}

pub proof fn lemma_settled_push(
    tasks: Seq<Task>,
    deps: Seq<TaskDep>,
    work: Seq<String>,
    s: String,
    y: Seq<char>,
    bound: int,
)
    requires
        settled_upto(tasks, deps, work, y, bound),
    ensures
        settled_upto(tasks, deps, work.push(s), y, bound),
{
    assert forall|e: int, t: int|
        #![trigger deps[e], tasks[t]]
        0 <= e < bound && e < deps.len() && deps[e].depends_on_task_id@ == y && 0 <= t < tasks.len()
            && tasks[t].id@ == deps[e].task_id@ && tasks[t].status == TaskStatus::Blocked implies !deps_resolved(
            tasks,
            deps,
            tasks[t].id@,
        ) || waits_on_pending(deps, work.push(s), tasks[t].id@) by {
        if deps_resolved(tasks, deps, tasks[t].id@) {
            let (e2, w) = choose|e2: int, w: int|
                0 <= e2 < deps.len() && deps[e2].task_id@ == tasks[t].id@ && 0 <= w < work.len()
                    && work[w]@ == deps[e2].depends_on_task_id@;
            assert(work.push(s)[w] == work[w]);
        }
    }
}

/// A blocked task `v` changing to another status keeps `y`'s dependents
/// settled, provided that a newly resolved `v` is on the work list.
pub proof fn lemma_settled_after_change(
    tasks: Seq<Task>,
    v: int,
    x: Task,
    deps: Seq<TaskDep>,
    work: Seq<String>,
    y: Seq<char>,
    bound: int,
)
    requires
        crate::store::task_ids_unique(tasks),
        0 <= v < tasks.len(),
        tasks[v].status == TaskStatus::Blocked,
        x.status != TaskStatus::Blocked,
        x.id == tasks[v].id,
        crate::status::task_is_resolved(x.status) ==> exists|w: int| 0 <= w < work.len() && work[w]@ == x.id@,
        settled_upto(tasks, deps, work, y, bound),
    ensures
        settled_upto(tasks.update(v, x), deps, work, y, bound),
{
    let n = tasks.update(v, x);
    assert forall|e: int, t: int|
        #![trigger deps[e], n[t]]
        0 <= e < bound && e < deps.len() && deps[e].depends_on_task_id@ == y && 0 <= t < n.len() && n[t].id@
            == deps[e].task_id@ && n[t].status == TaskStatus::Blocked implies !deps_resolved(
            n,
            deps,
            n[t].id@,
        ) || waits_on_pending(deps, work, n[t].id@) by {
        assert(t != v);
        assert(n[t] == tasks[t]);
        assert(tasks[t].status == TaskStatus::Blocked);
        if deps_resolved(n, deps, n[t].id@) {
            lemma_resolved_after_change(tasks, v, x, deps, n[t].id@);
            if !deps_resolved(tasks, deps, tasks[t].id@) {
                let e2 = choose|e2: int|
                    0 <= e2 < deps.len() && deps[e2].task_id@ == n[t].id@ && deps[e2].depends_on_task_id@
                        == x.id@;
                let w = choose|w: int| 0 <= w < work.len() && work[w]@ == x.id@;
                assert(waits_on_pending(deps, work, n[t].id@));
            }
        }
    }
}

/// What the unblocking pass from task `start` did under context `ctx`.
pub open spec fn unblocked(before: Store, after: Store, start: Seq<char>, ctx: ContextMap, now: u64) -> bool {
    &&& after.wf()
    &&& after.colonies == before.colonies
    &&& after.crabs == before.crabs
    &&& after.missions == before.missions
    &&& after.deps == before.deps
    &&& after.runs == before.runs
    &&& same_shape(before.tasks@, after.tasks@)
    &&& (forall|t: int|
        0 <= t < before.tasks@.len() ==> unblock_step(
            before.tasks@[t],
            #[trigger] after.tasks@[t],
            after.tasks@,
            after.deps@,
            after.runs@,
            ctx,
            now,
        ))
    &&& settled(after.tasks@, after.deps@, start)
    &&& (forall|t: int|
        turned(before.tasks@, after.tasks@, t, TaskStatus::Skipped) ==> settled(
            after.tasks@,
            after.deps@,
            #[trigger] after.tasks@[t].id@,
        ))
}

impl Store {
    /// Re-examines the blocked tasks that wait for task `start`, and,
    /// transitively, for every task this pass skips: each whose dependencies
    /// are all resolved is queued (condition absent or true under `ctx`) or
    /// skipped (condition false). Afterwards no blocked task that waits for
    /// `start` or for a task this pass skipped has all its dependencies
    /// resolved.
    pub fn unblock_dependents(&mut self, start: &str, ctx: &ContextMap, now: u64)
        requires
            old(self).wf(),
        ensures
            unblocked(*old(self), *final(self), start@, *ctx, now),
    {
        let mut work: Vec<String> = Vec::new();
        work.push(start.to_string());
        proof {
            assert(work@[0]@ == start@);
        }
        let ghost mut processed: Set<Seq<char>> = Set::empty();
        while work.len() > 0
            invariant
                self.wf(),
                self.colonies == old(self).colonies,
                self.crabs == old(self).crabs,
                self.missions == old(self).missions,
                self.deps == old(self).deps,
                self.runs == old(self).runs,
                same_shape(old(self).tasks@, self.tasks@),
                forall|t: int|
                    0 <= t < old(self).tasks@.len() ==> unblock_step(
                        old(self).tasks@[t],
                        #[trigger] self.tasks@[t],
                        self.tasks@,
                        self.deps@,
                        self.runs@,
                        *ctx,
                        now,
                    ),
                forall|y: Seq<char>|
                    #[trigger] processed.contains(y) ==> settled_upto(
                        self.tasks@,
                        self.deps@,
                        work@,
                        y,
                        self.deps@.len() as int,
                    ),
                processed.contains(start@) || exists|w: int| 0 <= w < work@.len() && work@[w]@ == start@,
                forall|t: int|
                    turned(old(self).tasks@, self.tasks@, t, TaskStatus::Skipped) ==> processed.contains(
                        #[trigger] self.tasks@[t].id@,
                    ) || exists|w: int| 0 <= w < work@.len() && work@[w]@ == self.tasks@[t].id@,
            decreases count_with(self.tasks@, TaskStatus::Blocked), work@.len(),
        {
            let ghost count_before = count_with(self.tasks@, TaskStatus::Blocked);
            let ghost work_before = work@;
            let x = work.pop().unwrap();
            proof {
                assert(work_before =~= work@.push(x));
            }
            let ghost pushed_from = work@.len();
            let mut e: usize = 0;
            while e < self.deps.len()
                invariant
                    self.wf(),
                    self.colonies == old(self).colonies,
                    self.crabs == old(self).crabs,
                    self.missions == old(self).missions,
                    self.deps == old(self).deps,
                    self.runs == old(self).runs,
                    same_shape(old(self).tasks@, self.tasks@),
                    forall|t: int|
                        0 <= t < old(self).tasks@.len() ==> unblock_step(
                            old(self).tasks@[t],
                            #[trigger] self.tasks@[t],
                            self.tasks@,
                            self.deps@,
                            self.runs@,
                            *ctx,
                            now,
                        ),
                    e <= self.deps@.len(),
                    work@.len() >= pushed_from,
                    work@.subrange(0, pushed_from as int) == work_before.subrange(0, pushed_from as int),
                    pushed_from + 1 == work_before.len(),
                    work_before[pushed_from as int] == x,
                    count_with(self.tasks@, TaskStatus::Blocked) <= count_before,
                    count_with(self.tasks@, TaskStatus::Blocked) == count_before ==> work@.len() == pushed_from,
                    forall|y: Seq<char>|
                        #[trigger] processed.contains(y) ==> settled_upto(
                            self.tasks@,
                            self.deps@,
                            work@.push(x),
                            y,
                            self.deps@.len() as int,
                        ),
                    settled_upto(self.tasks@, self.deps@, work@, x@, e as int),
                    processed.contains(start@) || exists|w: int|
                        0 <= w < work_before.len() && work_before[w]@ == start@,
                    forall|t: int|
                        turned(old(self).tasks@, self.tasks@, t, TaskStatus::Skipped) ==> processed.contains(
                            #[trigger] self.tasks@[t].id@,
                        ) || (exists|w: int| 0 <= w < work@.len() && work@[w]@ == self.tasks@[t].id@)
                            || self.tasks@[t].id@ == x@,
                decreases self.deps@.len() - e,
            {
                let ghost work_at = work@;
                let ghost tasks_at = self.tasks@;
                let mut handled = false;
                if text_eq(self.deps[e].depends_on_task_id.as_str(), x.as_str()) {
                    if let Some(t) = self.find_task(self.deps[e].task_id.as_str()) {
                        proof {
                            lemma_unique_task_index(self.tasks@, t as int);
                        }
                        if self.tasks[t].status == TaskStatus::Blocked && self.dependencies_resolved(
                            self.tasks[t].id.as_str(),
                        ) {
                            handled = true;
                            let ok = match self.task_condition(t) {
                                None => true,
                                Some(c) => evaluate_condition(c.as_str(), ctx),
                            };
                            let ghost prev = self.tasks@;
                            if ok {
                                let acc = self.build_accumulated_context(self.tasks[t].id.as_str());
                                self.tasks[t].status = TaskStatus::Queued;
                                self.tasks[t].context = Some(acc);
                                self.tasks[t].updated_at_ms = now;
                            } else {
                                self.tasks[t].status = TaskStatus::Skipped;
                                self.tasks[t].updated_at_ms = now;
                            }
                            proof {
                                assert(self.tasks@ =~= prev.update(t as int, self.tasks@[t as int]));
                                lemma_count_update(prev, t as int, self.tasks@[t as int], TaskStatus::Blocked);
                                lemma_count_bound(prev, TaskStatus::Blocked);
                                assert(same_shape(prev, self.tasks@));
                                assert forall|u: int|
                                    0 <= u < old(self).tasks@.len() implies unblock_step(
                                        old(self).tasks@[u],
                                        #[trigger] self.tasks@[u],
                                        self.tasks@,
                                        self.deps@,
                                        self.runs@,
                                        *ctx,
                                        now,
                                    ) by {
                                    lemma_accumulated_shape(prev, self.tasks@, self.deps@, self.runs@, old(self).tasks@[u].id@);
                                    if old(self).tasks@[u].status == TaskStatus::Blocked && self.tasks@[u] != old(self).tasks@[u] {
                                        lemma_resolved_persists(prev, t as int, self.tasks@[t as int], self.deps@, old(self).tasks@[u].id@);
                                    }
                                    if u == t {
                                        assert(prev[u] == old(self).tasks@[u]);
                                    }
                                }
                            }
                            if !ok {
                                work.push(self.tasks[t].id.clone());
                            }
                            proof {
                                let nt = self.tasks@[t as int];
                                if !ok {
                                    assert(work@[work@.len() - 1]@ == nt.id@);
                                    assert(work@.push(x)[work@.len() - 1]@ == nt.id@);
                                }
                                assert(covers(work@.push(x), work_at.push(x))) by {
                                    assert forall|w: int| 0 <= w < work_at.push(x).len() implies exists|v: int|
                                        0 <= v < work@.push(x).len() && work@.push(x)[v]@ == #[trigger] work_at.push(x)[w]@ by {
                                        if w < work_at.len() {
                                            assert(work@.push(x)[w] == work_at[w]);
                                        } else {
                                            assert(work@.push(x)[work@.len() as int] == x);
                                        }
                                    }
                                }
                                assert forall|y: Seq<char>|
                                    #[trigger] processed.contains(y) implies settled_upto(
                                        self.tasks@,
                                        self.deps@,
                                        work@.push(x),
                                        y,
                                        self.deps@.len() as int,
                                    ) by {
                                    lemma_settled_more_work(prev, self.deps@, work_at.push(x), work@.push(x), y, self.deps@.len() as int);
                                    lemma_settled_after_change(prev, t as int, nt, self.deps@, work@.push(x), y, self.deps@.len() as int);
                                }
                                if ok {
                                    assert(work@ == work_at);
                                } else {
                                    assert(work@ == work_at.push(self.tasks@[t as int].id));
                                    lemma_settled_push(prev, self.deps@, work_at, self.tasks@[t as int].id, x@, e as int);
                                }
                                lemma_settled_after_change(prev, t as int, nt, self.deps@, work@, x@, e as int);
                                assert forall|f: int, u: int|
                                    #![trigger self.deps@[f], self.tasks@[u]]
                                    0 <= f < e + 1 && f < self.deps@.len() && self.deps@[f].depends_on_task_id@ == x@
                                        && 0 <= u < self.tasks@.len() && self.tasks@[u].id@ == self.deps@[f].task_id@
                                        && self.tasks@[u].status == TaskStatus::Blocked implies !deps_resolved(
                                        self.tasks@,
                                        self.deps@,
                                        self.tasks@[u].id@,
                                    ) || waits_on_pending(self.deps@, work@, self.tasks@[u].id@) by {
                                    if f == e {
                                        assert(u == t);
                                    }
                                }
                                assert forall|u: int|
                                    turned(old(self).tasks@, self.tasks@, u, TaskStatus::Skipped) implies processed.contains(
                                        #[trigger] self.tasks@[u].id@,
                                    ) || (exists|w: int| 0 <= w < work@.len() && work@[w]@ == self.tasks@[u].id@)
                                        || self.tasks@[u].id@ == x@ by {
                                    if u == t {
                                        if !ok {
                                            assert(work@[work@.len() - 1]@ == self.tasks@[u].id@);
                                        }
                                    } else {
                                        assert(prev[u] == self.tasks@[u]);
                                        if exists|w: int| 0 <= w < work_at.len() && work_at[w]@ == self.tasks@[u].id@ {
                                            let w = choose|w: int| 0 <= w < work_at.len() && work_at[w]@ == self.tasks@[u].id@;
                                            assert(work@[w] == work_at[w]);
                                        }
                                    }
                                }
                                assert(work@.subrange(0, pushed_from as int) =~= work_at.subrange(0, pushed_from as int));
                            }
                        } else {
                            proof {
                                assert forall|f: int, u: int|
                                    #![trigger self.deps@[f], self.tasks@[u]]
                                    0 <= f < e + 1 && f < self.deps@.len() && self.deps@[f].depends_on_task_id@ == x@
                                        && 0 <= u < self.tasks@.len() && self.tasks@[u].id@ == self.deps@[f].task_id@
                                        && self.tasks@[u].status == TaskStatus::Blocked implies !deps_resolved(
                                        self.tasks@,
                                        self.deps@,
                                        self.tasks@[u].id@,
                                    ) || waits_on_pending(self.deps@, work@, self.tasks@[u].id@) by {
                                    if f == e {
                                        assert(u == t);
                                    }
                                }
                            }
                        }
                    }
                }
                proof {
                    if !handled {
                        assert forall|f: int, u: int|
                            #![trigger self.deps@[f], self.tasks@[u]]
                            0 <= f < e + 1 && f < self.deps@.len() && self.deps@[f].depends_on_task_id@ == x@
                                && 0 <= u < self.tasks@.len() && self.tasks@[u].id@ == self.deps@[f].task_id@
                                && self.tasks@[u].status == TaskStatus::Blocked implies !deps_resolved(
                                self.tasks@,
                                self.deps@,
                                self.tasks@[u].id@,
                            ) || waits_on_pending(self.deps@, work@, self.tasks@[u].id@) by {
                            if f == e {
                                assert(self.tasks@ == tasks_at);
                            }
                        }
                    }
                }
                e = e + 1;
            }
            proof {
                assert forall|y: Seq<char>|
                    #[trigger] processed.insert(x@).contains(y) implies settled_upto(
                        self.tasks@,
                        self.deps@,
                        work@,
                        y,
                        self.deps@.len() as int,
                    ) by {
                    if y != x@ {
                        assert(processed.contains(y));
                        lemma_settled_drop_done(self.tasks@, self.deps@, work@, x, y);
                    }
                }
                processed = processed.insert(x@);
            }
        }
        proof {
            assert forall|y: Seq<char>| #[trigger] processed.contains(y) implies settled(self.tasks@, self.deps@, y) by {
                assert(work@ =~= Seq::<String>::empty());
            }
        }
    }
}

/// Once every task waiting for `x` has been looked at, `x` can leave the work
/// list without unsettling anything.
pub proof fn lemma_settled_drop_done(
    tasks: Seq<Task>,
    deps: Seq<TaskDep>,
    work: Seq<String>,
    x: String,
    y: Seq<char>,
)
    requires
        settled_upto(tasks, deps, work.push(x), y, deps.len() as int),
        settled_upto(tasks, deps, work, x@, deps.len() as int),
    ensures
        settled_upto(tasks, deps, work, y, deps.len() as int),
{
    assert forall|e: int, t: int|
        #![trigger deps[e], tasks[t]]
        0 <= e < deps.len() && deps[e].depends_on_task_id@ == y && 0 <= t < tasks.len() && tasks[t].id@
            == deps[e].task_id@ && tasks[t].status == TaskStatus::Blocked implies !deps_resolved(
            tasks,
            deps,
            tasks[t].id@,
        ) || waits_on_pending(deps, work, tasks[t].id@) by {
        if deps_resolved(tasks, deps, tasks[t].id@) && !waits_on_pending(deps, work, tasks[t].id@) {
            let (e2, w) = choose|e2: int, w: int|
                0 <= e2 < deps.len() && deps[e2].task_id@ == tasks[t].id@ && 0 <= w < work.push(x).len()
                    && work.push(x)[w]@ == deps[e2].depends_on_task_id@;
            if w < work.len() {
                assert(work.push(x)[w] == work[w]);
            } else {
                assert(deps[e2].depends_on_task_id@ == x@);
            }
        }
    }
}

} // verus!

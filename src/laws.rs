//! Properties that relate the library's operations, proved from their contracts.

use vstd::prelude::*;
use crate::model::TaskDep;
use crate::protocol::Assignment;
use crate::schedule::{handed, mission_running, tick_done};
use crate::status::TaskStatus;
use crate::store::Store;
use crate::workflow::{declared_edge, expanded, last_step, WorkflowRegistry, WorkflowStep};

verus! {

/// Step ids of a manifest are pairwise distinct.
pub open spec fn step_ids_unique(steps: Seq<WorkflowStep>) -> bool {
    forall|i: int, j: int| 0 <= i < steps.len() && 0 <= j < steps.len() && i != j ==> steps[i].id@ != steps[j].id@
}

/// A manifest in which no step waits for another expands into tasks that all
/// start queued.
pub proof fn lemma_edge_free_workflow_starts_queued(
    before: Store,
    after: Store,
    registry: WorkflowRegistry,
    steps: Seq<WorkflowStep>,
    ids: Seq<String>,
    mission_id: Seq<char>,
    mission_prompt: Seq<char>,
    now: u64,
)
    requires
        expanded(before, after, registry, steps, ids, mission_id, mission_prompt, now),
        forall|k: int| 0 <= k < steps.len() ==> steps[k].depends_on@.len() == 0,
    ensures
        forall|k: int|
            0 <= k < steps.len() ==> #[trigger] after.tasks@[before.tasks@.len() + k].status == TaskStatus::Queued,
        after.deps@ == before.deps@,
{
    assert forall|k: int| 0 <= k < steps.len() implies #[trigger] after.tasks@[before.tasks@.len() + k].status
        == TaskStatus::Queued by {
        assert(crate::workflow::step_task_ok(
            after.tasks@[before.tasks@.len() + k],
            steps[k],
            ids[k]@,
            mission_id,
            crate::workflow::rendered(
                crate::workflow::template_of(registry.prompts@, steps[k].prompt_file@),
                mission_prompt,
                mission_id,
            ),
            now,
        ));
    }
    if after.deps@.len() > before.deps@.len() {
        let q = before.deps@.len() as int;
        assert(declared_edge(steps, ids, after.deps@[q]));
    }
    assert(after.deps@ =~= after.deps@.subrange(0, before.deps@.len() as int));
}

/// When a manifest's step ids are distinct, every edge created by expanding
/// it leaves a task that starts blocked: no task starts queued while waiting
/// for another.
pub proof fn lemma_expansion_edges_leave_blocked_tasks(
    before: Store,
    after: Store,
    registry: WorkflowRegistry,
    steps: Seq<WorkflowStep>,
    ids: Seq<String>,
    mission_id: Seq<char>,
    mission_prompt: Seq<char>,
    now: u64,
)
    requires
        expanded(before, after, registry, steps, ids, mission_id, mission_prompt, now),
        step_ids_unique(steps),
    ensures
        forall|q: int, k: int|
            #![trigger after.deps@[q], after.tasks@[before.tasks@.len() + k]]
            before.deps@.len() <= q < after.deps@.len() && 0 <= k < steps.len() && after.deps@[q].task_id@
                == ids[k]@ ==> after.tasks@[before.tasks@.len() + k].status == TaskStatus::Blocked,
{
    assert forall|q: int, k: int|
        #![trigger after.deps@[q], after.tasks@[before.tasks@.len() + k]]
        before.deps@.len() <= q < after.deps@.len() && 0 <= k < steps.len() && after.deps@[q].task_id@
            == ids[k]@ implies after.tasks@[before.tasks@.len() + k].status == TaskStatus::Blocked by {
        assert(declared_edge(steps, ids, after.deps@[q]));
        let (s, j, a, b) = choose|s: int, j: int, a: int, b: int|
            #![trigger steps[s].depends_on@[j], ids[a], ids[b]]
            0 <= s < steps.len() && 0 <= j < steps[s].depends_on@.len() && last_step(
                steps,
                steps[s].id@,
                a,
            ) && last_step(steps, steps[s].depends_on@[j]@, b) && after.deps@[q].task_id@ == ids[a]@
                && after.deps@[q].depends_on_task_id@ == ids[b]@;
        assert(a == s);
        assert(crate::workflow::step_task_ok(
            after.tasks@[before.tasks@.len() + k],
            steps[k],
            ids[k]@,
            mission_id,
            crate::workflow::rendered(
                crate::workflow::template_of(registry.prompts@, steps[k].prompt_file@),
                mission_prompt,
                mission_id,
            ),
            now,
        ));
    }
}

/// A scheduler tick starts no task: which missions have a running task is the
/// same before and after.
pub proof fn lemma_tick_keeps_running_tasks(before: Store, after: Store, out: Seq<Assignment>, now: u64)
    requires
        tick_done(before, after, out, now),
    ensures
        forall|m: Seq<char>| mission_running(after.tasks@, m) == mission_running(before.tasks@, m),
{
    assert forall|m: Seq<char>| mission_running(after.tasks@, m) == mission_running(before.tasks@, m) by {
        if mission_running(after.tasks@, m) {
            let u = choose|u: int|
                0 <= u < after.tasks@.len() && after.tasks@[u].mission_id@ == m
                    && after.tasks@[u].status == TaskStatus::Running;
            if after.tasks@[u] != before.tasks@[u] {
                let j = choose|j: int| handed(before, after, u, j, now);
            }
        }
        if mission_running(before.tasks@, m) {
            let u = choose|u: int|
                0 <= u < before.tasks@.len() && before.tasks@[u].mission_id@ == m
                    && before.tasks@[u].status == TaskStatus::Running;
            if after.tasks@[u] != before.tasks@[u] {
                let j = choose|j: int| handed(before, after, u, j, now);
            }
        }
    }
}

/// In one tick, two different tasks never go to the same crab.
pub proof fn lemma_tick_distinct_crabs(
    before: Store,
    after: Store,
    out: Seq<Assignment>,
    now: u64,
    t1: int,
    t2: int,
    j: int,
)
    requires
        before.wf(),
        tick_done(before, after, out, now),
        handed(before, after, t1, j, now),
        handed(before, after, t2, j, now),
    ensures
        t1 == t2,
{
    assert(before.tasks@[t1].id == before.tasks@[t2].id);
}

/// A crab that a tick made busy points at the task it took, and that task
/// names the crab as assignee.
pub proof fn lemma_tick_links_crab_and_task(
    before: Store,
    after: Store,
    out: Seq<Assignment>,
    now: u64,
    t: int,
    j: int,
)
    requires
        handed(before, after, t, j, now),
    ensures
        after.crabs@[j].state == crate::status::CrabState::Busy,
        after.crabs@[j].current_task_id == Some(after.tasks@[t].id),
        after.tasks@[t].assigned_crab_id == Some(after.crabs@[j].crab_id),
        after.tasks@[t].status == TaskStatus::Assigned,
{
}

/// A blocked task that waits for `start`, whose dependencies end up resolved
/// and whose condition names a key the context does not hold, is skipped by
/// the unblocking pass from `start`.
pub proof fn lemma_unknown_key_skips(
    before: Store,
    after: Store,
    start: Seq<char>,
    ctx: crate::condition::ContextMap,
    now: u64,
    t: int,
    e: int,
    c: Seq<char>,
)
    requires
        crate::cascade::unblocked(before, after, start, ctx, now),
        0 <= t < before.tasks@.len(),
        before.tasks@[t].status == TaskStatus::Blocked,
        0 <= e < before.deps@.len(),
        before.deps@[e].task_id@ == before.tasks@[t].id@,
        before.deps@[e].depends_on_task_id@ == start,
        crate::cascade::deps_resolved(after.tasks@, after.deps@, before.tasks@[t].id@),
        crate::cascade::stored_condition(before.tasks@[t]) == Some(c),
        forall|i: int|
            crate::condition::first_eqeq_at(c, i) ==> ctx.get_spec(crate::condition::condition_key(c, i)) is None,
    ensures
        after.tasks@[t].status == TaskStatus::Skipped,
{
    crate::condition::lemma_unknown_key_is_false(c, ctx);
    assert(after.tasks@[t].id == before.tasks@[t].id);
    assert(crate::cascade::unblock_step(
        before.tasks@[t],
        after.tasks@[t],
        after.tasks@,
        after.deps@,
        after.runs@,
        ctx,
        now,
    ));
    if after.tasks@[t].status == TaskStatus::Blocked {
        assert(after.deps@[e] == before.deps@[e]);
        assert(!crate::cascade::waits_on_pending(after.deps@, Seq::<String>::empty(), after.tasks@[t].id@));
    }
}

/// Every task that the unblocking pass moves out of `blocked` has all its
/// direct dependencies completed or skipped.
pub proof fn lemma_unblocked_tasks_have_resolved_dependencies(
    before: Store,
    after: Store,
    start: Seq<char>,
    ctx: crate::condition::ContextMap,
    now: u64,
    t: int,
)
    requires
        crate::cascade::unblocked(before, after, start, ctx, now),
        0 <= t < before.tasks@.len(),
        before.tasks@[t].status == TaskStatus::Blocked,
        after.tasks@[t].status != TaskStatus::Blocked,
    ensures
        crate::cascade::deps_resolved(after.tasks@, after.deps@, after.tasks@[t].id@),
{
    assert(crate::cascade::unblock_step(
        before.tasks@[t],
        after.tasks@[t],
        after.tasks@,
        after.deps@,
        after.runs@,
        ctx,
        now,
    ));
    assert(after.tasks@[t].id == before.tasks@[t].id);
}

} // verus!

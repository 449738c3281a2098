//! The scheduler: pairs queued tasks with idle crabs by role, one running task
//! per mission, and returns the assignments to send after commit.

use vstd::prelude::*;
use crate::model::{Crab, Mission, Task};
use crate::protocol::{Assignment, TaskAssigned};
use crate::status::{CrabState, TaskStatus};
use crate::store::{has_mission, Store};
use crate::text::text_eq;

verus! {

/// A task's role requirement, `any` when it states none.
pub open spec fn role_of(t: Task) -> Seq<char> {
    match t.role {
        Some(r) => r@,
        None => "any"@,
    }
}

/// A crab with role `crab_role` may take a task needing `task_role`.
pub open spec fn compatible(task_role: Seq<char>, crab_role: Seq<char>) -> bool {
    crab_role == task_role || task_role == "any"@ || crab_role == "any"@
}

pub open spec fn is_merge_wait(t: Task) -> bool {
    t.step_id matches Some(s) && s@ == "merge-wait"@
}

/// Some task of mission `m` is running.
pub open spec fn mission_running(tasks: Seq<Task>, m: Seq<char>) -> bool {
    exists|u: int| 0 <= u < tasks.len() && tasks[u].mission_id@ == m && tasks[u].status == TaskStatus::Running
}

/// A task holds its mission's worktree while it is assigned or running.
pub open spec fn is_active(s: TaskStatus) -> bool {
    s == TaskStatus::Running || s == TaskStatus::Assigned
}

/// Some task of mission `m` is assigned or running.
pub open spec fn mission_active(tasks: Seq<Task>, m: Seq<char>) -> bool {
    exists|u: int| 0 <= u < tasks.len() && tasks[u].mission_id@ == m && is_active(tasks[u].status)
}

/// When the tick reached task `t`, its mission was free: no task of it was
/// assigned or running before the tick, and no earlier task of it was handed
/// out during the tick.
pub open spec fn mission_free_at(before: Seq<Task>, after: Seq<Task>, t: int) -> bool {
    &&& !mission_active(before, before[t].mission_id@)
    &&& forall|u: int|
        0 <= u < t && u < after.len() && after[u].mission_id@ == before[t].mission_id@ ==> !is_active(
            #[trigger] after[u].status,
        )
}

/// Task `t` could be handed out when the tick reached it: queued, not a
/// merge-wait, and, for a workflow task, its mission free.
pub open spec fn eligible(before: Seq<Task>, after: Seq<Task>, t: int) -> bool {
    &&& before[t].status == TaskStatus::Queued
    &&& !is_merge_wait(before[t])
    &&& (before[t].step_id is Some ==> mission_free_at(before, after, t))
}

/// The position in `idle` of the crab a task with `task_role` goes to: the
/// first exact role match, else the first compatible crab.
pub open spec fn pick_ok(crabs: Seq<Crab>, idle: Seq<usize>, task_role: Seq<char>, k: int) -> bool {
    &&& 0 <= k < idle.len()
    &&& compatible(task_role, crabs[idle[k] as int].role@)
    &&& if crabs[idle[k] as int].role@ == task_role {
        forall|j: int| 0 <= j < k ==> crabs[idle[j] as int].role@ != task_role
    } else {
        &&& forall|j: int| 0 <= j < idle.len() ==> crabs[idle[j] as int].role@ != task_role
        &&& forall|j: int| 0 <= j < k ==> !compatible(task_role, crabs[idle[j] as int].role@)
    }
}

/// Chooses a crab for a task: exact role match first, else `any` on either side.
pub fn pick_crab(crabs: &Vec<Crab>, idle: &Vec<usize>, task_role: &str) -> (r: Option<usize>)
    requires
        forall|j: int| 0 <= j < idle@.len() ==> idle@[j] < crabs@.len(),
    ensures
        match r {
            Some(k) => pick_ok(crabs@, idle@, task_role@, k as int),
            None => forall|j: int|
                0 <= j < idle@.len() ==> !compatible(task_role@, crabs@[idle@[j] as int].role@),
        },
{
    let mut k: usize = 0;
    while k < idle.len()
        invariant
            k <= idle@.len(),
            forall|j: int| 0 <= j < idle@.len() ==> idle@[j] < crabs@.len(),
            forall|j: int| 0 <= j < k ==> crabs@[idle@[j] as int].role@ != task_role@,
        decreases idle@.len() - k,
    {
        if text_eq(crabs[idle[k]].role.as_str(), task_role) {
            return Some(k);
        }
        k = k + 1;
    }
    let task_any = text_eq(task_role, "any");
    let mut k: usize = 0;
    while k < idle.len()
        invariant
            k <= idle@.len(),
            forall|j: int| 0 <= j < idle@.len() ==> idle@[j] < crabs@.len(),
            forall|j: int| 0 <= j < idle@.len() ==> crabs@[idle@[j] as int].role@ != task_role@,
            task_any == (task_role@ == "any"@),
            forall|j: int| 0 <= j < k ==> !compatible(task_role@, crabs@[idle@[j] as int].role@),
        decreases idle@.len() - k,
    {
        if task_any || text_eq(crabs[idle[k]].role.as_str(), "any") {
            return Some(k);
        }
        k = k + 1;
    }
    None
}

impl Store {
    /// Whether some task of mission `m` is assigned or running.
    pub fn mission_has_active_task(&self, m: &str) -> (r: bool)
        ensures
            r == mission_active(self.tasks@, m@),
    {
        let mut u: usize = 0;
        while u < self.tasks.len()
            invariant
                u <= self.tasks@.len(),
                forall|v: int|
                    0 <= v < u ==> !(self.tasks@[v].mission_id@ == m@ && is_active(self.tasks@[v].status)),
            decreases self.tasks@.len() - u,
        {
            let st = self.tasks[u].status;
            if (st == TaskStatus::Running || st == TaskStatus::Assigned) && text_eq(
                self.tasks[u].mission_id.as_str(),
                m,
            ) {
                return true;
            }
            u = u + 1;
        }
        false
    }

    /// The assignment message for task `t` given to crab `crab_id`: the task's
    /// fields, its mission's prompt and working directory (empty and none when
    /// the mission is unknown), and `running` as the desired status.
    pub fn assignment_for(&self, t: usize, crab_id: String) -> (r: Assignment)
        requires
            t < self.tasks@.len(),
        ensures
            assignment_matches(r, self.tasks@[t as int], crab_id, self.missions@),
    {
        let task = &self.tasks[t];
        let (mission_prompt, worktree_path) = match self.find_mission(task.mission_id.as_str()) {
            Some(mi) => (
                self.missions[mi].prompt.clone(),
                crate::model::clone_text(&self.missions[mi].worktree_path),
            ),
            None => (String::new(), None),
        };
        Assignment {
            crab_id,
            payload: TaskAssigned {
                task_id: task.id.clone(),
                mission_id: task.mission_id.clone(),
                title: task.title.clone(),
                mission_prompt,
                desired_status: TaskStatus::Running,
                step_id: crate::model::clone_text(&task.step_id),
                role: crate::model::clone_text(&task.role),
                prompt: crate::model::clone_text(&task.prompt),
                context: crate::model::clone_text(&task.context),
                worktree_path,
            },
        }
    }
}

/// `a` hands task `t` to crab `crab_id`, with the task's fields and its
/// mission's prompt and working directory.
pub open spec fn assignment_matches(a: Assignment, t: Task, crab_id: String, missions: Seq<Mission>) -> bool {
    &&& a.crab_id == crab_id
    &&& a.payload.task_id == t.id
    &&& a.payload.mission_id == t.mission_id
    &&& a.payload.title == t.title
    &&& a.payload.desired_status == TaskStatus::Running
    &&& a.payload.step_id == t.step_id
    &&& a.payload.role == t.role
    &&& a.payload.prompt == t.prompt
    &&& a.payload.context == t.context
    &&& if has_mission(missions, t.mission_id@) {
        exists|mi: int|
            0 <= mi < missions.len() && missions[mi].id@ == t.mission_id@ && a.payload.mission_prompt
                == missions[mi].prompt && a.payload.worktree_path == missions[mi].worktree_path
    } else {
        a.payload.mission_prompt@ == Seq::<char>::empty() && a.payload.worktree_path is None
    }
}

/// Crab `c` after taking task id `tid` at `now`.
pub open spec fn crab_taking(c: Crab, tid: String, now: u64) -> Crab {
    Crab { state: CrabState::Busy, current_task_id: Some(tid), updated_at_ms: now, ..c }
}

/// Task `t` after being handed to crab id `cid` at `now`.
pub open spec fn task_handed(t: Task, cid: String, now: u64) -> Task {
    Task { assigned_crab_id: Some(cid), status: TaskStatus::Assigned, updated_at_ms: now, ..t }
}

/// In one tick, task `t` went to the idle crab `j`.
pub open spec fn handed(before: Store, after: Store, t: int, j: int, now: u64) -> bool {
    &&& 0 <= t < before.tasks@.len()
    &&& 0 <= j < before.crabs@.len()
    &&& eligible(before.tasks@, after.tasks@, t)
    &&& before.crabs@[j].state == CrabState::Idle
    &&& compatible(role_of(before.tasks@[t]), before.crabs@[j].role@)
    &&& after.tasks@[t] == task_handed(before.tasks@[t], before.crabs@[j].crab_id, now)
    &&& after.crabs@[j] == crab_taking(before.crabs@[j], before.tasks@[t].id, now)
}

/// What one scheduler tick did: queued tasks went to idle crabs, nothing else
/// changed, and every task still waiting has no idle crab it could go to.
pub open spec fn tick_done(before: Store, after: Store, out: Seq<Assignment>, now: u64) -> bool {
    &&& after.colonies == before.colonies
    &&& after.missions == before.missions
    &&& after.deps == before.deps
    &&& after.runs == before.runs
    &&& after.tasks@.len() == before.tasks@.len()
    &&& after.crabs@.len() == before.crabs@.len()
    &&& forall|t: int|
        #![trigger after.tasks@[t]]
        0 <= t < before.tasks@.len() ==> after.tasks@[t] == before.tasks@[t] || exists|j: int|
            handed(before, after, t, j, now)
    &&& forall|j: int|
        #![trigger after.crabs@[j]]
        0 <= j < before.crabs@.len() ==> after.crabs@[j] == before.crabs@[j] || exists|t: int|
            handed(before, after, t, j, now)
    &&& forall|t: int, q: int|
        #![trigger after.tasks@[t], avail_at(before, after, q, t, now)]
        0 <= t < before.tasks@.len() && after.tasks@[t] == before.tasks@[t] && eligible(
            before.tasks@,
            after.tasks@,
            t,
        ) && avail_at(before, after, q, t, now) ==> !compatible(role_of(before.tasks@[t]), before.crabs@[q].role@)
    &&& forall|t: int, j: int|
        #![trigger handed(before, after, t, j, now)]
        handed(before, after, t, j, now) ==> picked_at(before, after, t, j, now)
    &&& forall|k: int|
        #![trigger out[k]]
        0 <= k < out.len() ==> sent_for(before, after, out[k], now)
    &&& forall|t: int|
        #![trigger after.tasks@[t]]
        0 <= t < before.tasks@.len() && after.tasks@[t] != before.tasks@[t] ==> exists|k: int|
            0 <= k < out.len() && out[k].payload.task_id == after.tasks@[t].id
    &&& forall|k1: int, k2: int|
        #![trigger out[k1], out[k2]]
        0 <= k1 < out.len() && 0 <= k2 < out.len() && k1 != k2 ==> out[k1].crab_id@ != out[k2].crab_id@
            && out[k1].payload.task_id@ != out[k2].payload.task_id@
}

/// Crab `q` was idle before the tick and still free when the tick reached
/// task `t` (tasks are reached in store order, which is creation order).
pub open spec fn avail_at(before: Store, after: Store, q: int, t: int, now: u64) -> bool {
    &&& 0 <= q < before.crabs@.len()
    &&& before.crabs@[q].state == CrabState::Idle
    &&& forall|t2: int| #[trigger] handed(before, after, t2, q, now) ==> t2 >= t
}

/// Crab `j` is the one `pick_ok` chooses for task `t` among the crabs free
/// when the tick reached it: the first exact role match, else the first
/// compatible crab.
pub open spec fn picked_at(before: Store, after: Store, t: int, j: int, now: u64) -> bool {
    if before.crabs@[j].role@ == role_of(before.tasks@[t]) {
        forall|q: int|
            #![trigger avail_at(before, after, q, t, now)]
            0 <= q < j && avail_at(before, after, q, t, now) ==> before.crabs@[q].role@ != role_of(
                before.tasks@[t],
            )
    } else {
        &&& forall|q: int|
            #![trigger avail_at(before, after, q, t, now)]
            avail_at(before, after, q, t, now) ==> before.crabs@[q].role@ != role_of(before.tasks@[t])
        &&& forall|q: int|
            #![trigger avail_at(before, after, q, t, now)]
            0 <= q < j && avail_at(before, after, q, t, now) ==> !compatible(
                role_of(before.tasks@[t]),
                before.crabs@[q].role@,
            )
    }
}

/// Loop form of `avail_at`: crab `q` was idle and is untaken or taken at or
/// after task `t`.
pub open spec fn avail_by(before: Store, taken_by: Seq<int>, q: int, t: int) -> bool {
    &&& 0 <= q < before.crabs@.len()
    &&& before.crabs@[q].state == CrabState::Idle
    &&& (taken_by[q] == -1 || taken_by[q] >= t)
}

/// Loop form of `picked_at`.
pub open spec fn picked_by(before: Store, taken_by: Seq<int>, t: int, j: int) -> bool {
    if before.crabs@[j].role@ == role_of(before.tasks@[t]) {
        forall|q: int|
            #![trigger avail_by(before, taken_by, q, t)]
            0 <= q < j && avail_by(before, taken_by, q, t) ==> before.crabs@[q].role@ != role_of(
                before.tasks@[t],
            )
    } else {
        &&& forall|q: int|
            #![trigger avail_by(before, taken_by, q, t)]
            avail_by(before, taken_by, q, t) ==> before.crabs@[q].role@ != role_of(before.tasks@[t])
        &&& forall|q: int|
            #![trigger avail_by(before, taken_by, q, t)]
            0 <= q < j && avail_by(before, taken_by, q, t) ==> !compatible(
                role_of(before.tasks@[t]),
                before.crabs@[q].role@,
            )
    }
}

/// Assignment `a` is the message for a task this tick handed to a crab.
pub open spec fn sent_for(before: Store, after: Store, a: Assignment, now: u64) -> bool {
    exists|t: int, j: int|
        #![trigger after.tasks@[t], before.crabs@[j]]
        handed(before, after, t, j, now) && assignment_matches(
            a,
            after.tasks@[t],
            before.crabs@[j].crab_id,
            before.missions@,
        )
}

impl Store {
    /// One scheduler pass over the queued tasks in creation order.
    pub fn schedule_tick(&mut self, now: u64) -> (r: Vec<Assignment>)
        requires
            old(self).wf(),
        ensures
            final(self).wf(),
            tick_done(*old(self), *final(self), r@, now),
    {
        let ghost before = *self;
        let mut idle: Vec<usize> = Vec::new();
        let mut c: usize = 0;
        while c < self.crabs.len()
            invariant
                *self == before,
                c <= self.crabs@.len(),
                forall|j: int| 0 <= j < idle@.len() ==> idle@[j] < c,
                forall|j: int, k: int| 0 <= j < k < idle@.len() ==> idle@[j] < idle@[k],
                forall|j: int|
                    0 <= j < c ==> (self.crabs@[j].state == CrabState::Idle <==> in_idle(idle@, j)),
            decreases self.crabs@.len() - c,
        {
            let ghost prev_idle = idle@;
            if self.crabs[c].state == CrabState::Idle {
                idle.push(c);
            }
            proof {
                assert forall|j: int| 0 <= j < c + 1 implies (self.crabs@[j].state == CrabState::Idle
                    <==> in_idle(idle@, j)) by {
                    if in_idle(idle@, j) && j < c {
                        let w = choose|w: int| 0 <= w < idle@.len() && idle@[w] as int == j;
                        assert(w < prev_idle.len());
                        assert(prev_idle[w] as int == j);
                    }
                    if j < c && in_idle(prev_idle, j) {
                        let w = choose|w: int| 0 <= w < prev_idle.len() && prev_idle[w] as int == j;
                        assert(idle@[w] as int == j);
                    }
                    if j == c && self.crabs@[j].state == CrabState::Idle {
                        assert(idle@[idle@.len() - 1] == c);
                    }
                }
            }
            c = c + 1;
        }
        let ghost mut given_to: Seq<int> = Seq::new(self.tasks@.len(), |t: int| -1int);
        let ghost mut taken_by: Seq<int> = Seq::new(self.crabs@.len(), |j: int| -1int);
        let ghost mut out_task: Seq<int> = Seq::empty();
        let ghost mut out_of: Seq<int> = Seq::new(self.tasks@.len(), |t: int| -1int);
        let mut out: Vec<Assignment> = Vec::new();
        let mut i: usize = 0;
        while i < self.tasks.len() && idle.len() > 0
            invariant
                before.wf(),
                self.colonies == before.colonies,
                self.missions == before.missions,
                self.deps == before.deps,
                self.runs == before.runs,
                self.tasks@.len() == before.tasks@.len(),
                self.crabs@.len() == before.crabs@.len(),
                forall|t: int| 0 <= t < self.tasks@.len() ==> #[trigger] self.tasks@[t].id == before.tasks@[t].id,
                forall|j: int| 0 <= j < self.crabs@.len() ==> #[trigger] self.crabs@[j].crab_id == before.crabs@[j].crab_id,
                i <= self.tasks@.len(),
                given_to.len() == self.tasks@.len(),
                taken_by.len() == self.crabs@.len(),
                out_task.len() == out@.len(),
                out_of.len() == self.tasks@.len(),
                forall|t: int|
                    0 <= t < given_to.len() && #[trigger] given_to[t] != -1 ==> 0 <= out_of[t] < out@.len()
                        && out_task[out_of[t]] == t,
                forall|k1: int, k2: int|
                    0 <= k1 < out_task.len() && 0 <= k2 < out_task.len() && k1 != k2 ==> #[trigger] out_task[k1]
                        != #[trigger] out_task[k2],
                forall|t: int|
                    0 <= t < given_to.len() && #[trigger] given_to[t] != -1 ==> picked_by(
                        before,
                        taken_by,
                        t,
                        given_to[t],
                    ),
                forall|t: int|
                    0 <= t < given_to.len() && #[trigger] given_to[t] == -1 ==> self.tasks@[t]
                        == before.tasks@[t],
                forall|t: int|
                    0 <= t < given_to.len() && #[trigger] given_to[t] != -1 ==> t < i && 0
                        <= given_to[t] < taken_by.len() && taken_by[given_to[t]] == t && handed(
                        before,
                        *self,
                        t,
                        given_to[t],
                        now,
                    ),
                forall|j: int|
                    0 <= j < taken_by.len() && #[trigger] taken_by[j] == -1 ==> self.crabs@[j]
                        == before.crabs@[j],
                forall|j: int|
                    0 <= j < taken_by.len() && #[trigger] taken_by[j] != -1 ==> 0 <= taken_by[j]
                        < i && given_to[taken_by[j]] == j,
                forall|t: int| i <= t < given_to.len() ==> #[trigger] given_to[t] == -1,
                forall|j: int| 0 <= j < idle@.len() ==> idle@[j] < self.crabs@.len(),
                forall|j: int, k: int| 0 <= j < k < idle@.len() ==> idle@[j] < idle@[k],
                taken_by.len() == before.crabs@.len(),
                forall|j: int|
                    0 <= j < self.crabs@.len() ==> (#[trigger] self.crabs@[j].state == CrabState::Idle
                        <==> in_idle(idle@, j)),
                forall|j: int|
                    0 <= j < self.crabs@.len() && #[trigger] self.crabs@[j].state == CrabState::Idle
                        ==> taken_by[j] == -1,
                forall|t: int, q: int|
                    #![trigger given_to[t], avail_by(before, taken_by, q, t)]
                    0 <= t < i && given_to[t] == -1 && eligible(before.tasks@, self.tasks@, t) && avail_by(
                        before,
                        taken_by,
                        q,
                        t,
                    ) ==> !compatible(role_of(before.tasks@[t]), before.crabs@[q].role@),
                forall|j: int|
                    0 <= j < self.crabs@.len() ==> #[trigger] self.crabs@[j].role == before.crabs@[j].role,
                forall|k: int|
                    0 <= k < out_task.len() ==> 0 <= #[trigger] out_task[k] < given_to.len()
                        && given_to[out_task[k]] != -1 && assignment_matches(
                        out@[k],
                        self.tasks@[out_task[k]],
                        before.crabs@[given_to[out_task[k]]].crab_id,
                        before.missions@,
                    ),
            decreases self.tasks@.len() - i,
        {
            let queued = self.tasks[i].status == TaskStatus::Queued;
            let merge_wait = match &self.tasks[i].step_id {
                Some(sid) => text_eq(sid.as_str(), "merge-wait"),
                None => false,
            };
            let blocked_by_mission = self.tasks[i].step_id.is_some()
                && self.mission_has_active_task(self.tasks[i].mission_id.as_str());
            proof {
                assert(given_to[i as int] == -1);
                assert(self.tasks@[i as int] == before.tasks@[i as int]);
                assert(merge_wait == is_merge_wait(before.tasks@[i as int]));
                lemma_active_split(before.tasks@, self.tasks@, given_to, i as int, before.tasks@[i as int].mission_id@);
                assert(eligible(before.tasks@, self.tasks@, i as int) == (queued && !merge_wait && !blocked_by_mission));
            }
            if queued && !merge_wait && !blocked_by_mission {
                let role: String = match &self.tasks[i].role {
                    Some(r) => r.clone(),
                    None => "any".to_string(),
                };
                proof {
                    assert(role@ == role_of(before.tasks@[i as int]));
                }
                match pick_crab(&self.crabs, &idle, role.as_str()) {
                    None => {
                        proof {
                            assert forall|q: int|
                                avail_by(before, taken_by, q, i as int)
                                implies !compatible(role_of(before.tasks@[i as int]), before.crabs@[q].role@) by {
                                assert(taken_by[q] == -1);
                                assert(self.crabs@[q] == before.crabs@[q]);
                                assert(in_idle(idle@, q));
                                let w = choose|w: int| 0 <= w < idle@.len() && idle@[w] as int == q;
                                assert(!compatible(role@, self.crabs@[idle@[w] as int].role@));
                            }
                        }
                    },
                    Some(k) => {
                        let j = idle[k];
                        let ghost idle_before = idle@;
                        proof {
                            assert(in_idle(idle@, j as int));
                            assert(self.crabs@[j as int].state == CrabState::Idle);
                            assert(taken_by[j as int] == -1);
                            assert(self.crabs@[j as int] == before.crabs@[j as int]);
                        }
                        idle.remove(k);
                        let cid = self.crabs[j].crab_id.clone();
                        let tid = self.tasks[i].id.clone();
                        let ghost mid = *self;
                        self.tasks[i].assigned_crab_id = Some(cid.clone());
                        self.tasks[i].status = TaskStatus::Assigned;
                        self.tasks[i].updated_at_ms = now;
                        self.crabs[j].state = CrabState::Busy;
                        self.crabs[j].current_task_id = Some(tid);
                        self.crabs[j].updated_at_ms = now;
                        proof {
                            assert(self.tasks@ =~= mid.tasks@.update(
                                i as int,
                                task_handed(before.tasks@[i as int], before.crabs@[j as int].crab_id, now),
                            ));
                            assert(self.crabs@ =~= mid.crabs@.update(
                                j as int,
                                crab_taking(before.crabs@[j as int], before.tasks@[i as int].id, now),
                            ));
                            let old_given = given_to;
                            let mid_taken = taken_by;
                            given_to = given_to.update(i as int, j as int);
                            taken_by = taken_by.update(j as int, i as int);
                            assert(idle@ =~= idle_before.remove(k as int));
                            lemma_idle_after_take(mid.crabs@, self.crabs@, idle_before, idle@, k as int, j);
                            assert forall|t: int| 0 <= t <= i implies eligible(before.tasks@, self.tasks@, t)
                                == eligible(before.tasks@, mid.tasks@, t) by {
                                assert forall|u: int| 0 <= u < t implies self.tasks@[u] == mid.tasks@[u] by {}
                            }
                            assert forall|t: int|
                                0 <= t < given_to.len() && #[trigger] given_to[t] != -1 implies t < i + 1 && 0
                                    <= given_to[t] < taken_by.len() && taken_by[given_to[t]] == t && handed(
                                    before,
                                    *self,
                                    t,
                                    given_to[t],
                                    now,
                                ) by {
                                if t != i {
                                    assert(old_given[t] != -1);
                                    assert(handed(before, mid, t, old_given[t], now));
                                    assert(old_given[t] != j);
                                    assert(self.tasks@[t] == mid.tasks@[t]);
                                }
                            }
                            let old_tb = taken_by.update(j as int, -1int);
                            assert(old_tb =~= mid_taken);
                            assert forall|t: int, q: int| 0 <= t <= i implies avail_by(before, taken_by, q, t)
                                == avail_by(before, mid_taken, q, t) by {}
                            assert forall|t: int, q: int|
                                #![trigger given_to[t], avail_by(before, taken_by, q, t)]
                                0 <= t < i + 1 && given_to[t] == -1 && eligible(before.tasks@, self.tasks@, t)
                                    && avail_by(before, taken_by, q, t)
                                implies !compatible(role_of(before.tasks@[t]), before.crabs@[q].role@) by {
                                assert(t != i);
                                assert(old_given[t] == -1);
                                assert(avail_by(before, mid_taken, q, t));
                            }
                            assert forall|q: int| #[trigger] avail_by(before, taken_by, q, i as int) && q != j implies in_idle(
                                idle_before,
                                q,
                            ) by {
                                assert(mid_taken[q] == -1);
                                assert(mid.crabs@[q] == before.crabs@[q]);
                            }
                            assert(picked_by(before, taken_by, i as int, j as int)) by {
                                assert forall|q: int|
                                    #[trigger] avail_by(before, taken_by, q, i as int) && q != j implies exists|w: int|
                                        0 <= w < idle_before.len() && idle_before[w] as int == q && (q < j <==> w < k) by {
                                    let w = choose|w: int| 0 <= w < idle_before.len() && idle_before[w] as int == q;
                                    if w < k {
                                        assert(idle_before[w] < idle_before[k as int]);
                                    } else if w > k {
                                        assert(idle_before[k as int] < idle_before[w]);
                                    }
                                }
                                assert(mid.crabs@[j as int].role == before.crabs@[j as int].role);
                            }
                            assert forall|t: int|
                                0 <= t < given_to.len() && #[trigger] given_to[t] != -1 implies picked_by(
                                    before,
                                    taken_by,
                                    t,
                                    given_to[t],
                                ) by {
                                if t != i {
                                    assert(old_given[t] != -1);
                                    assert(picked_by(before, mid_taken, t, old_given[t]));
                                }
                            }
                            assert forall|a: int, b: int| 0 <= a < b < idle@.len() implies idle@[a] < idle@[b] by {
                                if a < k {
                                    if b < k {
                                    } else {
                                        assert(idle_before[a] < idle_before[b + 1]);
                                    }
                                } else {
                                    assert(idle_before[a + 1] < idle_before[b + 1]);
                                }
                            }
                        }
                        let a = self.assignment_for(i, cid);
                        let ghost out_len = out@.len();
                        out.push(a);
                        proof {
                            out_task = out_task.push(i as int);
                            out_of = out_of.update(i as int, out_len as int);
                            assert forall|t: int|
                                0 <= t < given_to.len() && #[trigger] given_to[t] != -1 implies 0 <= out_of[t] < out@.len()
                                    && out_task[out_of[t]] == t by {
                                if t != i {
                                    assert(out_task[out_of[t]] == out_task.drop_last()[out_of[t]]);
                                }
                            }
                            assert forall|k1: int, k2: int|
                                0 <= k1 < out_task.len() && 0 <= k2 < out_task.len() && k1 != k2 implies #[trigger] out_task[k1]
                                    != #[trigger] out_task[k2] by {
                                if k1 == out_len as int {
                                    assert(given_to[out_task[k2]] != -1);
                                } else if k2 == out_len as int {
                                    assert(given_to[out_task[k1]] != -1);
                                }
                            }
                        }
                    },
                }
            }
            i = i + 1;
        }
        proof {
            assert forall|t: int| 0 <= t < self.tasks@.len() implies (self.tasks@[t] == before.tasks@[t]
                || exists|j: int| handed(before, *self, t, j, now)) by {
                if given_to[t] != -1 {
                    assert(handed(before, *self, t, given_to[t], now));
                }
            }
            assert forall|j: int| 0 <= j < self.crabs@.len() implies (self.crabs@[j] == before.crabs@[j]
                || exists|t: int| handed(before, *self, t, j, now)) by {
                if taken_by[j] != -1 {
                    assert(handed(before, *self, taken_by[j], j, now));
                }
            }
            assert forall|k: int| 0 <= k < out@.len() implies sent_for(before, *self, out@[k], now) by {
                let t = out_task[k];
                assert(handed(before, *self, t, given_to[t], now));
            }
            assert forall|t: int|
                0 <= t < before.tasks@.len() && self.tasks@[t] != before.tasks@[t] implies exists|k: int|
                    0 <= k < out@.len() && out@[k].payload.task_id == self.tasks@[t].id by {
                assert(given_to[t] != -1);
                let k = out_of[t];
                assert(out@[k].payload.task_id == self.tasks@[t].id);
            }
            assert forall|k1: int, k2: int|
                0 <= k1 < out@.len() && 0 <= k2 < out@.len() && k1 != k2 implies out@[k1].crab_id@
                    != out@[k2].crab_id@ && out@[k1].payload.task_id@ != out@[k2].payload.task_id@ by {
                let t1 = out_task[k1];
                let t2 = out_task[k2];
                assert(t1 != t2);
                assert(handed(before, *self, t1, given_to[t1], now));
                assert(handed(before, *self, t2, given_to[t2], now));
                assert(taken_by[given_to[t1]] == t1);
                assert(taken_by[given_to[t2]] == t2);
            }
            assert forall|t2: int, q: int| handed(before, *self, t2, q, now) implies taken_by[q] == t2 by {
                assert(self.tasks@[t2] != before.tasks@[t2]);
                assert(given_to[t2] != -1);
                assert(handed(before, *self, t2, given_to[t2], now));
                assert(before.crabs@[given_to[t2]].crab_id == before.crabs@[q].crab_id);
                assert(given_to[t2] == q);
            }
            assert forall|q: int, t: int| avail_at(before, *self, q, t, now) == avail_by(before, taken_by, q, t) by {
                if 0 <= q < before.crabs@.len() && taken_by[q] != -1 {
                    assert(handed(before, *self, taken_by[q], q, now));
                }
            }
            assert forall|t: int, j: int| handed(before, *self, t, j, now) implies picked_at(before, *self, t, j, now) by {
                assert(taken_by[j] == t);
                assert(given_to[t] == j);
                assert(picked_by(before, taken_by, t, j));
                assert forall|q: int| #[trigger] avail_at(before, *self, q, t, now) implies avail_by(before, taken_by, q, t) by {}
            }
            assert forall|t: int, q: int|
                0 <= t < before.tasks@.len() && self.tasks@[t] == before.tasks@[t] && eligible(
                    before.tasks@,
                    self.tasks@,
                    t,
                ) && avail_at(before, *self, q, t, now)
                implies !compatible(role_of(before.tasks@[t]), before.crabs@[q].role@) by {
                if given_to[t] != -1 {
                    assert(self.tasks@[t].status == TaskStatus::Assigned);
                }
                assert(avail_by(before, taken_by, q, t));
                if t >= i {
                    assert(taken_by[q] == -1);
                    assert(self.crabs@[q] == before.crabs@[q]);
                    assert(!in_idle(idle@, q));
                }
            }
        }
        out
    }
}

/// Crab index `q` is on the idle list.
pub open spec fn in_idle(idle: Seq<usize>, q: int) -> bool {
    exists|w: int| 0 <= w < idle.len() && idle[w] as int == q
}

/// Taking crab `j` out of the idle list keeps the list in step with the crabs
/// whose state is idle.
proof fn lemma_idle_after_take(
    mid: Seq<Crab>,
    crabs: Seq<Crab>,
    idle_before: Seq<usize>,
    idle: Seq<usize>,
    k: int,
    j: usize,
)
    requires
        0 <= k < idle_before.len(),
        idle_before[k] == j,
        idle == idle_before.remove(k),
        (j as int) < mid.len(),
        crabs.len() == mid.len(),
        crabs[j as int].state == CrabState::Busy,
        forall|q: int| 0 <= q < mid.len() && q != j ==> crabs[q] == mid[q],
        forall|a: int, b: int| 0 <= a < b < idle_before.len() ==> idle_before[a] != idle_before[b],
        forall|q: int|
            0 <= q < mid.len() ==> (#[trigger] mid[q].state == CrabState::Idle <==> in_idle(idle_before, q)),
    ensures
        forall|q: int|
            0 <= q < crabs.len() ==> (#[trigger] crabs[q].state == CrabState::Idle <==> in_idle(idle, q)),
{
    assert forall|q: int| 0 <= q < crabs.len() implies (#[trigger] crabs[q].state == CrabState::Idle
        <==> in_idle(idle, q)) by {
        if in_idle(idle, q) {
            let w = choose|w: int| 0 <= w < idle.len() && idle[w] as int == q;
            if w < k {
                assert(idle[w] == idle_before[w]);
                assert(idle_before[w] as int == q);
            } else {
                assert(idle[w] == idle_before[w + 1]);
                assert(idle_before[w + 1] as int == q);
            }
            assert(q != j);
        }
        if q != j && mid[q].state == CrabState::Idle {
            assert(in_idle(idle_before, q));
            let w = choose|w: int| 0 <= w < idle_before.len() && idle_before[w] as int == q;
            assert(idle_before[w] as int == q);
            assert(w != k);
            if w < k {
                assert(idle[w] == q);
            } else {
                assert(idle[w - 1] == q);
            }
        }
    }
}

/// During a tick, whether a mission has an assigned or running task is what
/// it was before the tick, or some earlier task of it was handed out.
proof fn lemma_active_split(before: Seq<Task>, cur: Seq<Task>, given_to: Seq<int>, i: int, m: Seq<char>)
    requires
        cur.len() == before.len(),
        given_to.len() == before.len(),
        forall|t: int|
            0 <= t < given_to.len() && #[trigger] given_to[t] == -1 ==> cur[t] == before[t],
        forall|t: int|
            0 <= t < given_to.len() && #[trigger] given_to[t] != -1 ==> t < i && cur[t].status
                == TaskStatus::Assigned && before[t].status == TaskStatus::Queued && cur[t].mission_id
                == before[t].mission_id,
    ensures
        mission_active(cur, m) <==> (mission_active(before, m) || exists|u: int|
            0 <= u < i && u < cur.len() && cur[u].mission_id@ == m && is_active(cur[u].status)),
{
    if mission_active(before, m) {
        let u = choose|u: int| 0 <= u < before.len() && before[u].mission_id@ == m && is_active(before[u].status);
        assert(given_to[u] == -1);
    }
    if mission_active(cur, m) {
        let u = choose|u: int| 0 <= u < cur.len() && cur[u].mission_id@ == m && is_active(cur[u].status);
        if given_to[u] == -1 {
            assert(cur[u] == before[u]);
        }
    }
}

} // verus!

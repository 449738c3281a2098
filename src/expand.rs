//! Materialising a workflow manifest as a mission's tasks and edges.

use vstd::prelude::*;
use crate::model::{ApiError, ErrorKind, Task, TaskDep};
use crate::status::TaskStatus;
use crate::store::{has_task, Store};
use crate::text::text_eq;
use crate::workflow::{
    declared_edge, expanded, find_last_step, has_edge_from, last_step, render_prompt, step_context,
    step_task_ok, step_title, WorkflowManifest, WorkflowRegistry, WorkflowStep,
};

verus! {

/// `ids` can name `n` new tasks: one each, pairwise distinct, all unused.
pub open spec fn ids_usable(tasks: Seq<Task>, ids: Seq<String>, n: int) -> bool {
    &&& ids.len() == n
    &&& forall|k: int| 0 <= k < ids.len() ==> !has_task(tasks, #[trigger] ids[k]@)
    &&& forall|k: int, q: int| 0 <= k < q < ids.len() ==> ids[k]@ != ids[q]@
}

impl Store {
    /// Random ids for `n` new tasks, distinct and unused.
    pub fn fresh_task_ids(&self, n: usize) -> (r: Result<Vec<String>, ApiError>)
        ensures
            match r {
                Ok(ids) => ids@.len() == n && (forall|k: int|
                    0 <= k < n ==> !has_task(self.tasks@, #[trigger] ids@[k]@)) && (forall|k: int, q: int|
                    0 <= k < q < n ==> ids@[k]@ != ids@[q]@),
                Err(e) => e.kind == ErrorKind::Internal,
            },
    {
        let mut ids: Vec<String> = Vec::new();
        let mut k: usize = 0;
        while k < n
            invariant
                k <= n,
                ids@.len() == k,
                forall|p: int| 0 <= p < k ==> !has_task(self.tasks@, #[trigger] ids@[p]@),
                forall|p: int, q: int| 0 <= p < q < k ==> ids@[p]@ != ids@[q]@,
            decreases n - k,
        {
            let id = match self.fresh_id() {
                Ok(id) => id,
                Err(e) => return Err(e),
            };
            let mut p: usize = 0;
            while p < ids.len()
                invariant
                    p <= ids@.len(),
                    forall|x: int| 0 <= x < p ==> ids@[x]@ != id@,
                decreases ids@.len() - p,
            {
                if text_eq(ids[p].as_str(), id.as_str()) {
                    return Err(ApiError::internal("generated id is already in use"));
                }
                p = p + 1;
            }
            ids.push(id);
            k = k + 1;
        }
        Ok(ids)
    }

    /// Creates one task per step of `manifest` for a mission: blocked when the
    /// step waits for others, else queued; then one edge per dependency that
    /// names a step of the manifest (others are dropped).
    pub fn expand_workflow(
        &mut self,
        registry: &WorkflowRegistry,
        manifest: &WorkflowManifest,
        mission_id: &str,
        mission_prompt: &str,
        now: u64,
    ) -> (r: Result<Vec<String>, ApiError>)
        requires
            old(self).wf(),
        ensures
            final(self).wf(),
            match r {
                Ok(ids) => expanded(
                    *old(self),
                    *final(self),
                    *registry,
                    manifest.steps@,
                    ids@,
                    mission_id@,
                    mission_prompt@,
                    now,
                ),
                Err(e) => e.kind == ErrorKind::Internal && *final(self) == *old(self),
            },
    {
        let ids = match self.fresh_task_ids(manifest.steps.len()) {
            Ok(ids) => ids,
            Err(e) => return Err(e),
        };
        match self.expand_workflow_with_ids(registry, manifest, mission_id, mission_prompt, ids, now) {
            Ok(used) => Ok(used),
            Err(e) => Err(e),
        }
    }

    /// Whether `ids` can name the tasks of a manifest with `n` steps: one per
    /// step, pairwise distinct, none held by a task yet.
    pub fn task_ids_usable(&self, ids: &Vec<String>, n: usize) -> (r: bool)
        ensures
            r == ids_usable(self.tasks@, ids@, n as int),
    {
        if ids.len() != n {
            return false;
        }
        let mut k: usize = 0;
        while k < ids.len()
            invariant
                k <= ids@.len(),
                ids@.len() == n,
                forall|p: int| 0 <= p < k ==> !has_task(self.tasks@, #[trigger] ids@[p]@),
                forall|p: int, q: int| 0 <= p < q < k ==> ids@[p]@ != ids@[q]@,
            decreases ids@.len() - k,
        {
            if self.find_task(ids[k].as_str()).is_some() {
                return false;
            }
            let mut p: usize = 0;
            while p < k
                invariant
                    k < ids@.len(),
                    p <= k,
                    forall|x: int| 0 <= x < p ==> ids@[x]@ != ids@[k as int]@,
                decreases k - p,
            {
                if text_eq(ids[p].as_str(), ids[k].as_str()) {
                    return false;
                }
                p = p + 1;
            }
            k = k + 1;
        }
        true
    }

    /// Creates one task per step of `manifest` for a mission, named by `ids`
    /// in step order: blocked when the step waits for others, else queued;
    /// then one edge per dependency that names a step of the manifest (others
    /// are dropped). Fails, changing nothing, exactly when `ids` cannot name
    /// the tasks.
    pub fn expand_workflow_with_ids(
        &mut self,
        registry: &WorkflowRegistry,
        manifest: &WorkflowManifest,
        mission_id: &str,
        mission_prompt: &str,
        ids: Vec<String>,
        now: u64,
    ) -> (r: Result<Vec<String>, ApiError>)
        requires
            old(self).wf(),
        ensures
            final(self).wf(),
            match r {
                Ok(used) => used@ == ids@ && expanded(
                    *old(self),
                    *final(self),
                    *registry,
                    manifest.steps@,
                    ids@,
                    mission_id@,
                    mission_prompt@,
                    now,
                ),
                Err(e) => e.kind == ErrorKind::Internal && *final(self) == *old(self) && !ids_usable(
                    old(self).tasks@,
                    ids@,
                    manifest.steps@.len() as int,
                ),
            },
            r is Err <==> !ids_usable(old(self).tasks@, ids@, manifest.steps@.len() as int),
    {
        let steps = &manifest.steps;
        let n = steps.len();
        if !self.task_ids_usable(&ids, n) {
            return Err(ApiError::internal("task ids are not usable"));
        }
        let ghost base = self.tasks@.len();
        let mut k: usize = 0;
        while k < n
            invariant
                old(self).wf(),
                self.wf(),
                n == steps@.len(),
                ids@.len() == n,
                k <= n,
                forall|p: int| 0 <= p < n ==> !has_task(old(self).tasks@, #[trigger] ids@[p]@),
                forall|p: int, q: int| 0 <= p < q < n ==> ids@[p]@ != ids@[q]@,
                base == old(self).tasks@.len(),
                self.tasks@.len() == base + k,
                self.tasks@.subrange(0, base as int) == old(self).tasks@,
                forall|p: int| 0 <= p < k ==> self.tasks@[base + p].id@ == ids@[p]@,
                forall|p: int|
                    #![trigger self.tasks@[base + p]]
                    0 <= p < k ==> step_task_ok(
                        self.tasks@[base + p],
                        steps@[p],
                        ids@[p]@,
                        mission_id@,
                        crate::workflow::rendered(
                            crate::workflow::template_of(registry.prompts@, steps@[p].prompt_file@),
                            mission_prompt@,
                            mission_id@,
                        ),
                        now,
                    ),
                self.colonies == old(self).colonies,
                self.crabs == old(self).crabs,
                self.missions == old(self).missions,
                self.runs == old(self).runs,
                self.deps == old(self).deps,
            decreases n - k,
        {
            let step = &steps[k];
            let template = registry.load_prompt_file(step.prompt_file.as_str());
            let prompt = render_prompt(template.as_str(), mission_prompt, mission_id);
            let status = if step.depends_on.len() > 0 {
                TaskStatus::Blocked
            } else {
                TaskStatus::Queued
            };
            let task = Task {
                id: ids[k].clone(),
                mission_id: mission_id.to_string(),
                title: step_title(step),
                assigned_crab_id: None,
                status,
                step_id: Some(step.id.clone()),
                role: Some(step.role.clone()),
                prompt: Some(prompt),
                context: step_context(step),
                created_at_ms: now,
                updated_at_ms: now,
            };
            let ghost prev = self.tasks@;
            self.tasks.push(task);
            proof {
                assert(self.tasks@.subrange(0, base as int) =~= prev.subrange(0, base as int));
                assert forall|a: int, b: int|
                    0 <= a < self.tasks@.len() && 0 <= b < self.tasks@.len() && a != b implies self.tasks@[a].id@
                        != self.tasks@[b].id@ by {
                    lemma_ids_apart(old(self).tasks@, self.tasks@, ids@, base as int, (k + 1) as int, a, b);
                }
            }
            k = k + 1;
        }
        let ghost dbase = self.deps@.len();
        let ghost mid = *self;
        let mut s: usize = 0;
        while s < n
            invariant
                self.wf(),
                n == steps@.len(),
                ids@.len() == n,
                s <= n,
                dbase == old(self).deps@.len(),
                self.deps@.len() >= dbase,
                self.deps@.subrange(0, dbase as int) == old(self).deps@,
                forall|q: int|
                    dbase <= q < self.deps@.len() ==> declared_edge(steps@, ids@, #[trigger] self.deps@[q]),
                forall|x: int, j: int, a: int, b: int|
                    #![trigger steps@[x].depends_on@[j], ids@[a], ids@[b]]
                    0 <= x < s && 0 <= j < steps@[x].depends_on@.len() && last_step(
                        steps@,
                        steps@[x].id@,
                        a,
                    ) && last_step(steps@, steps@[x].depends_on@[j]@, b) ==> has_edge_from(
                        self.deps@,
                        dbase as int,
                        ids@[a]@,
                        ids@[b]@,
                    ),
                self.tasks == mid.tasks,
                self.colonies == mid.colonies,
                self.crabs == mid.crabs,
                self.missions == mid.missions,
                self.runs == mid.runs,
            decreases n - s,
        {
            let src = find_last_step(steps, steps[s].id.as_str());
            match src {
                None => {
                    proof {
                        assert(steps@[s as int].id@ == steps@[s as int].id@);
                    }
                },
                Some(a) => {
                    let deps_of = &steps[s].depends_on;
                    let mut j: usize = 0;
                    while j < deps_of.len()
                        invariant
                            self.wf(),
                            n == steps@.len(),
                            ids@.len() == n,
                            s < n,
                            *deps_of == steps@[s as int].depends_on,
                            last_step(steps@, steps@[s as int].id@, a as int),
                            j <= deps_of@.len(),
                            dbase == old(self).deps@.len(),
                            self.tasks == mid.tasks,
                            self.colonies == mid.colonies,
                            self.crabs == mid.crabs,
                            self.missions == mid.missions,
                            self.runs == mid.runs,
                            self.deps@.len() >= dbase,
                            self.deps@.subrange(0, dbase as int) == old(self).deps@,
                            forall|q: int|
                                dbase <= q < self.deps@.len() ==> declared_edge(
                                    steps@,
                                    ids@,
                                    #[trigger] self.deps@[q],
                                ),
                            forall|x: int, jj: int, aa: int, b: int|
                                #![trigger steps@[x].depends_on@[jj], ids@[aa], ids@[b]]
                                0 <= x < s && 0 <= jj < steps@[x].depends_on@.len() && last_step(
                                    steps@,
                                    steps@[x].id@,
                                    aa,
                                ) && last_step(steps@, steps@[x].depends_on@[jj]@, b)
                                    ==> has_edge_from(self.deps@, dbase as int, ids@[aa]@, ids@[b]@),
                            forall|jj: int, aa: int, b: int|
                                #![trigger steps@[s as int].depends_on@[jj], ids@[aa], ids@[b]]
                                0 <= jj < j && last_step(steps@, steps@[s as int].id@, aa) && last_step(
                                    steps@,
                                    steps@[s as int].depends_on@[jj]@,
                                    b,
                                ) ==> has_edge_from(self.deps@, dbase as int, ids@[aa]@, ids@[b]@),
                        decreases deps_of@.len() - j,
                    {
                        match find_last_step(steps, deps_of[j].as_str()) {
                            None => {},
                            Some(b) => {
                                let ghost prev = self.deps@;
                                self.deps.push(
                                    TaskDep { task_id: ids[a].clone(), depends_on_task_id: ids[b].clone() },
                                );
                                proof {
                                    assert(self.deps@.subrange(0, dbase as int) =~= prev.subrange(0, dbase as int));
                                    let e = self.deps@[self.deps@.len() - 1];
                                    assert(steps@[s as int].depends_on@[j as int] == deps_of@[j as int]);
                                    assert(declared_edge(steps@, ids@, e)) by {
                                        assert(steps@[s as int].depends_on@[j as int]@ == deps_of@[j as int]@);
                                    }
                                    assert forall|x: int, jj: int, aa: int, bb: int|
                                        #![trigger steps@[x].depends_on@[jj], ids@[aa], ids@[bb]]
                                        0 <= x < s && 0 <= jj < steps@[x].depends_on@.len() && last_step(
                                            steps@,
                                            steps@[x].id@,
                                            aa,
                                        ) && last_step(steps@, steps@[x].depends_on@[jj]@, bb)
                                        implies has_edge_from(self.deps@, dbase as int, ids@[aa]@, ids@[bb]@) by {
                                        let q = choose|q: int| dbase <= q < prev.len() && prev[q].task_id@ == ids@[aa]@
                                            && prev[q].depends_on_task_id@ == ids@[bb]@;
                                        assert(self.deps@[q] == prev[q]);
                                    }
                                    assert forall|jj: int, aa: int, bb: int|
                                        #![trigger steps@[s as int].depends_on@[jj], ids@[aa], ids@[bb]]
                                        0 <= jj < j + 1 && last_step(steps@, steps@[s as int].id@, aa) && last_step(
                                            steps@,
                                            steps@[s as int].depends_on@[jj]@,
                                            bb,
                                        ) implies has_edge_from(self.deps@, dbase as int, ids@[aa]@, ids@[bb]@) by {
                                        lemma_last_step_unique(steps@, steps@[s as int].id@, a as int, aa);
                                        if jj == j {
                                            lemma_last_step_unique(steps@, steps@[s as int].depends_on@[jj]@, b as int, bb);
                                            assert(self.deps@[prev.len() as int] == e);
                                        } else {
                                            let q = choose|q: int| dbase <= q < prev.len() && prev[q].task_id@ == ids@[aa]@
                                                && prev[q].depends_on_task_id@ == ids@[bb]@;
                                            assert(self.deps@[q] == prev[q]);
                                        }
                                    }
                                }
                            },
                        }
                        j = j + 1;
                    }
                },
            }
            s = s + 1;
        }
        Ok(ids)
    }
}

proof fn lemma_ids_apart(
    old_tasks: Seq<Task>,
    tasks: Seq<Task>,
    ids: Seq<String>,
    base: int,
    k: int,
    a: int,
    b: int,
)
    requires
        crate::store::task_ids_unique(old_tasks),
        base == old_tasks.len(),
        tasks.len() == base + k,
        0 <= k <= ids.len(),
        tasks.subrange(0, base) == old_tasks,
        forall|p: int| 0 <= p < k ==> tasks[base + p].id@ == ids[p]@,
        forall|p: int| 0 <= p < ids.len() ==> !has_task(old_tasks, #[trigger] ids[p]@),
        forall|p: int, q: int| 0 <= p < q < ids.len() ==> ids[p]@ != ids[q]@,
        0 <= a < tasks.len(),
        0 <= b < tasks.len(),
        a != b,
    ensures
        tasks[a].id@ != tasks[b].id@,
{
    if a < base {
        assert(tasks[a] == tasks.subrange(0, base)[a]);
    }
    if b < base {
        assert(tasks[b] == tasks.subrange(0, base)[b]);
    }
    if a >= base {
        assert(tasks[base + (a - base)].id@ == ids[a - base]@);
    }
    if b >= base {
        assert(tasks[base + (b - base)].id@ == ids[b - base]@);
    }
    if a >= base && b >= base {
        if a - base < b - base {
            assert(ids[a - base]@ != ids[b - base]@);
        } else {
            assert(ids[b - base]@ != ids[a - base]@);
        }
    }
}

proof fn lemma_last_step_unique(steps: Seq<WorkflowStep>, id: Seq<char>, a: int, b: int)
    requires
        last_step(steps, id, a),
        last_step(steps, id, b),
    ensures
        a == b,
{
}

} // verus!

//! The per-colony sequential mission queue.

use vstd::prelude::*;
use crate::model::{ApiError, ErrorKind, Mission};
use crate::protocol::Assignment;
use crate::schedule::tick_done;
use crate::decimal::{format_i64, signed_text};
use crate::status::MissionStatus;
use crate::store::{has_colony, has_mission, Store};
use crate::text::text_eq;
use crate::workflow::{expanded, worktree_of, worktree_path, WorkflowRegistry};

verus! {

/// A mission of colony `c` that takes part in the sequential queue.
pub open spec fn queued_in(m: Mission, c: Seq<char>) -> bool {
    m.colony_id@ == c && m.queue_position is Some
}

/// Some queued mission of colony `c` is running.
pub open spec fn queue_busy(missions: Seq<Mission>, c: Seq<char>) -> bool {
    exists|i: int| 0 <= i < missions.len() && queued_in(missions[i], c) && missions[i].status == MissionStatus::Running
}

/// At most one queued mission of colony `c` is running.
pub open spec fn queue_serial(missions: Seq<Mission>, c: Seq<char>) -> bool {
    forall|i: int, j: int|
        0 <= i < missions.len() && 0 <= j < missions.len() && queued_in(missions[i], c) && queued_in(
            missions[j],
            c,
        ) && missions[i].status == MissionStatus::Running && missions[j].status
            == MissionStatus::Running ==> i == j
}

/// `k` is the next mission of colony `c` to run: pending, queued, with the
/// smallest position (the earliest stored on ties).
pub open spec fn next_in_queue(missions: Seq<Mission>, c: Seq<char>, k: int) -> bool {
    &&& 0 <= k < missions.len()
    &&& queued_in(missions[k], c)
    &&& missions[k].status == MissionStatus::Pending
    &&& forall|j: int|
        0 <= j < missions.len() && queued_in(missions[j], c) && missions[j].status
            == MissionStatus::Pending ==> missions[k].queue_position->0 < missions[j].queue_position->0
            || (missions[k].queue_position->0 == missions[j].queue_position->0 && k <= j)
}

pub open spec fn has_next(missions: Seq<Mission>, c: Seq<char>) -> bool {
    exists|k: int| next_in_queue(missions, c, k)
}

/// The next queued mission of colony `c`, if any, is now running in its own
/// working directory; no other mission changed.
pub open spec fn activated(before: Seq<Mission>, after: Seq<Mission>, c: Seq<char>) -> bool {
    if has_next(before, c) {
        exists|k: int|
            #![trigger before[k]]
            next_in_queue(before, c, k) && after == before.update(
                k,
                Mission {
                    status: MissionStatus::Running,
                    worktree_path: after[k].worktree_path,
                    ..before[k]
                },
            ) && (after[k].worktree_path matches Some(w) && w@ == worktree_of(before[k].id@))
    } else {
        after == before
    }
}

impl Store {
    pub fn queue_has_running(&self, colony_id: &str) -> (r: bool)
        ensures
            r == queue_busy(self.missions@, colony_id@),
    {
        let mut i: usize = 0;
        while i < self.missions.len()
            invariant
                i <= self.missions@.len(),
                forall|j: int|
                    0 <= j < i ==> !(queued_in(self.missions@[j], colony_id@) && self.missions@[j].status
                        == MissionStatus::Running),
            decreases self.missions@.len() - i,
        {
            if self.missions[i].queue_position.is_some() && self.missions[i].status
                == MissionStatus::Running && text_eq(self.missions[i].colony_id.as_str(), colony_id) {
                return true;
            }
            i = i + 1;
        }
        false
    }

    pub fn next_queued_mission(&self, colony_id: &str) -> (r: Option<usize>)
        ensures
            match r {
                Some(k) => next_in_queue(self.missions@, colony_id@, k as int),
                None => forall|j: int|
                    0 <= j < self.missions@.len() ==> !(queued_in(self.missions@[j], colony_id@)
                        && self.missions@[j].status == MissionStatus::Pending),
            },
    {
        let mut best: Option<usize> = None;
        let mut i: usize = 0;
        while i < self.missions.len()
            invariant
                i <= self.missions@.len(),
                match best {
                    Some(k) => k < i && queued_in(self.missions@[k as int], colony_id@)
                        && self.missions@[k as int].status == MissionStatus::Pending && forall|j: int|
                        0 <= j < i && queued_in(self.missions@[j], colony_id@) && self.missions@[j].status
                            == MissionStatus::Pending ==> self.missions@[k as int].queue_position->0
                            < self.missions@[j].queue_position->0 || (
                        self.missions@[k as int].queue_position->0
                            == self.missions@[j].queue_position->0 && k <= j),
                    None => forall|j: int|
                        0 <= j < i ==> !(queued_in(self.missions@[j], colony_id@)
                            && self.missions@[j].status == MissionStatus::Pending),
                },
            decreases self.missions@.len() - i,
        {
            let m = &self.missions[i];
            if m.status == MissionStatus::Pending && text_eq(m.colony_id.as_str(), colony_id) {
                if let Some(p) = m.queue_position {
                    let better = match best {
                        None => true,
                        Some(k) => p < self.missions[k].queue_position.unwrap(),
                    };
                    if better {
                        best = Some(i);
                    }
                }
            }
            i = i + 1;
        }
        best
    }

    /// Starts the next queued mission of a colony unless one is running: when
    /// its workflow is known its tasks are created with random ids, and it becomes
    /// running in its own working directory.
    pub fn activate_next_mission(
        &mut self,
        registry: &WorkflowRegistry,
        colony_id: &str,
        now: u64,
    ) -> (r: Result<(), ApiError>)
        requires
            old(self).wf(),
        ensures
            r is Err ==> r->Err_0.kind == ErrorKind::Internal,
            activation_done(*old(self), *final(self), *registry, colony_id@, now, r is Ok),
    {
        let mut n: usize = 0;
        if !self.queue_has_running(colony_id) {
            if let Some(k) = self.next_queued_mission(colony_id) {
                if let Some(w) = &self.missions[k].workflow_name {
                    if let Some(m) = registry.get(w.as_str()) {
                        n = m.steps.len();
                    }
                }
            }
        }
        let mut task_ids: Vec<String> = Vec::new();
        let mut q: usize = 0;
        while q < n
            decreases n - q,
        {
            task_ids.push(crate::trusted::new_uuid_text());
            q = q + 1;
        }
        self.activate_next_mission_with_ids(registry, colony_id, task_ids, now)
    }

    /// Starts the next queued mission of a colony unless one is running: when
    /// its workflow is known its tasks are created with ids `task_ids`, and it
    /// becomes running in its own working directory. Fails, changing nothing,
    /// exactly when `task_ids` cannot name those tasks.
    pub fn activate_next_mission_with_ids(
        &mut self,
        registry: &WorkflowRegistry,
        colony_id: &str,
        task_ids: Vec<String>,
        now: u64,
    ) -> (r: Result<(), ApiError>)
        requires
            old(self).wf(),
        ensures
            r is Err ==> r->Err_0.kind == ErrorKind::Internal,
            activation_done(*old(self), *final(self), *registry, colony_id@, now, r is Ok),
            r is Err <==> !activation_ids_fit(*old(self), *registry, colony_id@, task_ids@),
    {
        if self.queue_has_running(colony_id) {
            return Ok(());
        }
        let k = match self.next_queued_mission(colony_id) {
            Some(k) => k,
            None => {
                proof {
                    assert(!has_next(self.missions@, colony_id@));
                }
                return Ok(());
            },
        };
        proof {
            lemma_next_unique(self.missions@, colony_id@, k as int);
        }
        let id = self.missions[k].id.clone();
        let prompt = self.missions[k].prompt.clone();
        let workflow = crate::model::clone_text(&self.missions[k].workflow_name);
        let ghost mut used: Seq<String> = Seq::empty();
        let ghost mut mi: int = 0;
        if let Some(w) = &workflow {
            if let Some(manifest) = registry.get(w.as_str()) {
                proof {
                    mi = choose|x: int| crate::workflow::first_named(*registry, w@, x) && registry.manifests@[x] == *manifest;
                    assert forall|x: int| crate::workflow::first_named(*registry, w@, x) implies x == mi by {
                        if x < mi {
                        } else if mi < x {
                        }
                    }
                }
                match self.expand_workflow_with_ids(registry, manifest, id.as_str(), prompt.as_str(), task_ids, now) {
                    Ok(ids) => {
                        proof {
                            used = ids@;
                        }
                    },
                    Err(e) => return Err(e),
                }
            }
        }
        let ghost expanded_store = *self;
        let ghost prev = self.missions@;
        self.missions[k].status = MissionStatus::Running;
        self.missions[k].worktree_path = Some(worktree_path(id.as_str()));
        proof {
            assert(self.missions@ =~= prev.update(
                k as int,
                Mission {
                    status: MissionStatus::Running,
                    worktree_path: self.missions@[k as int].worktree_path,
                    ..prev[k as int]
                },
            ));
            assert forall|a: int, b: int|
                0 <= a < self.missions@.len() && 0 <= b < self.missions@.len() && a != b implies self.missions@[a].id@
                    != self.missions@[b].id@ by {
                assert(self.missions@[a].id == prev[a].id);
                assert(self.missions@[b].id == prev[b].id);
            }
            assert forall|a: int, b: int|
                0 <= a < self.missions@.len() && 0 <= b < self.missions@.len() && queued_in(
                    self.missions@[a],
                    colony_id@,
                ) && queued_in(self.missions@[b], colony_id@) && self.missions@[a].status
                    == MissionStatus::Running && self.missions@[b].status == MissionStatus::Running
                implies a == b by {
                if a != k {
                    assert(self.missions@[a] == prev[a]);
                }
                if b != k {
                    assert(self.missions@[b] == prev[b]);
                }
            }
            assert(activated(old(self).missions@, self.missions@, colony_id@));
            if resolvable(*registry, old(self).missions@[k as int]) {
                assert(expanded_store == Store { missions: old(self).missions, ..*self });
                assert(expanded_by_manifest(*old(self), *self, *registry, mi, used, id@, prompt@, now));
                assert(registry.manifests@[mi].workflow.name@ == old(self).missions@[k as int].workflow_name->0@);
            } else {
                assert(self.tasks == old(self).tasks && self.deps == old(self).deps);
            }
            assert(self.colonies == old(self).colonies);
        }
        Ok(())
    }
}

/// `ids` can name the tasks that starting colony `c`'s next queued mission
/// creates: nothing is started, or the next mission's workflow is unknown, or
/// `ids` suit the first manifest of that name.
pub open spec fn activation_ids_fit(before: Store, registry: WorkflowRegistry, c: Seq<char>, ids: Seq<String>) -> bool {
    queue_busy(before.missions@, c) || forall|k: int|
        #[trigger] next_in_queue(before.missions@, c, k) && resolvable(registry, before.missions@[k])
            ==> workflow_ids_fit(before.tasks@, registry, before.missions@[k].workflow_name->0@, ids)
}

/// `ids` suit the first manifest named `w`.
pub open spec fn workflow_ids_fit(tasks: Seq<crate::model::Task>, registry: WorkflowRegistry, w: Seq<char>, ids: Seq<String>) -> bool {
    forall|m: int|
        #[trigger] crate::workflow::first_named(registry, w, m) ==> crate::expand::ids_usable(
            tasks,
            ids,
            registry.manifests@[m].steps@.len() as int,
        )
}

/// The mission's workflow names a manifest of the registry.
pub open spec fn resolvable(registry: WorkflowRegistry, m: Mission) -> bool {
    m.workflow_name matches Some(w) && registry.has_name(w@)
}

/// `after` is `before` with the tasks and edges of the `k`-th manifest
/// expanded for mission `id` (missions aside).
pub open spec fn expanded_by_manifest(
    before: Store,
    after: Store,
    registry: WorkflowRegistry,
    k: int,
    ids: Seq<String>,
    id: Seq<char>,
    prompt: Seq<char>,
    now: u64,
) -> bool {
    &&& 0 <= k < registry.manifests@.len()
    &&& expanded(
        before,
        Store { missions: before.missions, ..after },
        registry,
        registry.manifests@[k].steps@,
        ids,
        id,
        prompt,
        now,
    )
}

/// What starting the next queued mission of colony `c` did, when it
/// succeeded (`ok`): nothing while a queued mission runs or none waits;
/// otherwise the next one runs, its workflow's tasks exist when the workflow
/// is known, and nothing else changed. A failure (only possible while
/// drawing task ids) leaves the store as it was.
pub open spec fn activation_done(
    before: Store,
    after: Store,
    registry: WorkflowRegistry,
    c: Seq<char>,
    now: u64,
    ok: bool,
) -> bool {
    &&& after.wf()
    &&& (queue_serial(before.missions@, c) ==> queue_serial(after.missions@, c))
    &&& if !ok {
        &&& after == before
        &&& !queue_busy(before.missions@, c)
        &&& exists|k: int| #[trigger] next_in_queue(before.missions@, c, k) && resolvable(registry, before.missions@[k])
    } else if queue_busy(before.missions@, c) || !has_next(before.missions@, c) {
        after == before
    } else {
        &&& after.colonies == before.colonies
        &&& after.crabs == before.crabs
        &&& after.runs == before.runs
        &&& activated(before.missions@, after.missions@, c)
        &&& forall|k: int|
            #[trigger] next_in_queue(before.missions@, c, k) ==> if resolvable(registry, before.missions@[k]) {
                exists|m: int, ids: Seq<String>|
                    #![trigger expanded_by_manifest(before, after, registry, m, ids, before.missions@[k].id@, before.missions@[k].prompt@, now)]
                    registry.manifests@[m].workflow.name@ == before.missions@[k].workflow_name->0@
                        && expanded_by_manifest(
                        before,
                        after,
                        registry,
                        m,
                        ids,
                        before.missions@[k].id@,
                        before.missions@[k].prompt@,
                        now,
                    )
            } else {
                after.tasks == before.tasks && after.deps == before.deps
            }
    }
}

proof fn lemma_next_unique(missions: Seq<Mission>, c: Seq<char>, k: int)
    requires
        next_in_queue(missions, c, k),
    ensures
        forall|j: int| next_in_queue(missions, c, j) ==> j == k,
{
}

/// The largest queue position in colony `c`, or 0 when it has none.
pub open spec fn max_position(missions: Seq<Mission>, c: Seq<char>) -> int
    decreases missions.len(),
{
    if missions.len() == 0 {
        0
    } else {
        let rest = max_position(missions.drop_last(), c);
        match missions.last().queue_position {
            Some(p) => if missions.last().colony_id@ == c && p > rest {
                p as int
            } else {
                rest
            },
            None => rest,
        }
    }
}

/// Some mission of colony `c` was queued for issue `n`.
pub open spec fn issue_queued(missions: Seq<Mission>, c: Seq<char>, n: i64) -> bool {
    exists|i: int| 0 <= i < missions.len() && missions[i].colony_id@ == c && missions[i].github_issue_number == Some(n)
}

/// `<repo>#<n>: <title>`, a blank line, then the issue body.
pub open spec fn issue_prompt(repo: Seq<char>, n: i64, title: Seq<char>, body: Seq<char>) -> Seq<char> {
    repo + "#"@ + signed_text(n as int) + ": "@ + title + "\n\n"@ + body
}

pub open spec fn prompt_from_repo(repo: Option<String>, prompt: Seq<char>, n: i64, title: Seq<char>, body: Seq<char>) -> bool {
    match repo {
        Some(r) => prompt == issue_prompt(r@, n, title, body),
        None => false,
    }
}

/// Starting the next queued mission of colony `c` after a new pending mission
/// with workflow `wf` joins the end of the queue can name its tasks with
/// `ids`: the existing next mission starts if there is one, else the new one.
pub open spec fn queue_activation_fits(
    before: Store,
    registry: WorkflowRegistry,
    c: Seq<char>,
    wf: Seq<char>,
    ids: Seq<String>,
) -> bool {
    if has_next(before.missions@, c) || queue_busy(before.missions@, c) {
        activation_ids_fit(before, registry, c, ids)
    } else {
        registry.has_name(wf) ==> workflow_ids_fit(before.tasks@, registry, wf, ids)
    }
}

/// A queued mission's position is at most the colony's largest one.
proof fn lemma_position_bound(missions: Seq<Mission>, c: Seq<char>, k: int)
    requires
        0 <= k < missions.len(),
        queued_in(missions[k], c),
    ensures
        missions[k].queue_position->0 <= max_position(missions, c),
    decreases missions.len(),
{
    if k < missions.len() - 1 {
        lemma_position_bound(missions.drop_last(), c, k);
    }
    lemma_max_position_nonneg(missions.drop_last(), c);
}

proof fn lemma_max_position_nonneg(missions: Seq<Mission>, c: Seq<char>)
    ensures
        max_position(missions, c) >= 0,
    decreases missions.len(),
{
    if missions.len() > 0 {
        lemma_max_position_nonneg(missions.drop_last(), c);
    }
}

/// Appending a pending mission at position `top + 1` keeps a running queued
/// mission running and an existing next mission next; with no next mission,
/// the new one is next.
proof fn lemma_pushed_queue(missions: Seq<Mission>, m: Mission, c: Seq<char>, top: int)
    requires
        top == max_position(missions, c),
        m.colony_id@ == c,
        m.queue_position == Some((top + 1) as i64),
        top + 1 <= i64::MAX,
        m.status == MissionStatus::Pending,
    ensures
        queue_busy(missions.push(m), c) == queue_busy(missions, c),
        forall|k: int| next_in_queue(missions, c, k) ==> next_in_queue(missions.push(m), c, k),
        (forall|j: int|
            0 <= j < missions.len() ==> !(queued_in(missions[j], c) && missions[j].status
                == MissionStatus::Pending)) ==> next_in_queue(missions.push(m), c, missions.len() as int),
{
    let p = missions.push(m);
    if queue_busy(p, c) {
        let i = choose|i: int| 0 <= i < p.len() && queued_in(p[i], c) && p[i].status == MissionStatus::Running;
        assert(i < missions.len());
        assert(p[i] == missions[i]);
    }
    if queue_busy(missions, c) {
        let i = choose|i: int| 0 <= i < missions.len() && queued_in(missions[i], c) && missions[i].status == MissionStatus::Running;
        assert(p[i] == missions[i]);
    }
    assert forall|k: int| next_in_queue(missions, c, k) implies next_in_queue(p, c, k) by {
        lemma_position_bound(missions, c, k);
        assert forall|j: int|
            0 <= j < p.len() && queued_in(p[j], c) && p[j].status == MissionStatus::Pending implies p[k].queue_position->0
                < p[j].queue_position->0 || (p[k].queue_position->0 == p[j].queue_position->0 && k <= j) by {
            if j < missions.len() {
                assert(p[j] == missions[j]);
            }
        }
    }
    if forall|j: int|
        0 <= j < missions.len() ==> !(queued_in(missions[j], c) && missions[j].status == MissionStatus::Pending) {
        assert forall|j: int|
            0 <= j < p.len() && queued_in(p[j], c) && p[j].status == MissionStatus::Pending implies p[missions.len() as int].queue_position->0
                < p[j].queue_position->0 || (p[missions.len() as int].queue_position->0 == p[j].queue_position->0
                && missions.len() <= j) by {
            if j < missions.len() {
                assert(p[j] == missions[j]);
            }
        }
    }
}

/// The colony `c` exists and has no repository.
pub open spec fn colony_without_repo(colonies: Seq<crate::model::Colony>, c: Seq<char>) -> bool {
    exists|i: int| 0 <= i < colonies.len() && colonies[i].id@ == c && colonies[i].repo is None
}

/// Some store `mid` is `before` with mission `m` appended to the queue;
/// starting the colony's next queued mission led from it to `m2`, and one
/// scheduler tick from `m2` to `after` produced `out`.
pub open spec fn queued_then_ticked(
    before: Store,
    after: Store,
    registry: WorkflowRegistry,
    m: Mission,
    out: Seq<Assignment>,
    c: Seq<char>,
    now: u64,
) -> bool {
    exists|mid: Store, m2: Store|
        #![trigger activation_done(mid, m2, registry, c, now, true)]
        mid.missions@ == before.missions@.push(m) && mid.colonies == before.colonies && mid.crabs
            == before.crabs && mid.tasks == before.tasks && mid.deps == before.deps && mid.runs
            == before.runs && activation_done(mid, m2, registry, c, now, true) && tick_done(m2, after, out, now)
}

impl Store {
    /// The repository an issue of colony `colony_id` is read from.
    pub fn queue_target(&self, colony_id: &str) -> (r: Result<String, ApiError>)
        ensures
            match r {
                Ok(repo) => exists|i: int|
                    0 <= i < self.colonies@.len() && self.colonies@[i].id@ == colony_id@
                        && self.colonies@[i].repo == Some(repo),
                Err(e) => (e.kind == ErrorKind::NotFound && !has_colony(self.colonies@, colony_id@)) || (
                e.kind == ErrorKind::BadRequest && exists|i: int|
                    0 <= i < self.colonies@.len() && self.colonies@[i].id@ == colony_id@
                        && self.colonies@[i].repo is None),
            },
    {
        match self.find_colony(colony_id) {
            None => Err(ApiError::not_found("colony not found")),
            Some(i) => match &self.colonies[i].repo {
                Some(repo) => Ok(repo.clone()),
                None => Err(ApiError::bad_request("colony has no repo configured")),
            },
        }
    }

    pub fn max_queue_position(&self, colony_id: &str) -> (r: i64)
        ensures
            r as int == max_position(self.missions@, colony_id@),
    {
        let mut best: i64 = 0;
        let mut i: usize = 0;
        while i < self.missions.len()
            invariant
                i <= self.missions@.len(),
                best as int == max_position(self.missions@.subrange(0, i as int), colony_id@),
            decreases self.missions@.len() - i,
        {
            proof {
                assert(self.missions@.subrange(0, i + 1).drop_last() =~= self.missions@.subrange(0, i as int));
            }
            if let Some(p) = self.missions[i].queue_position {
                if p > best && text_eq(self.missions[i].colony_id.as_str(), colony_id) {
                    best = p;
                }
            }
            i = i + 1;
        }
        proof {
            assert(self.missions@.subrange(0, i as int) =~= self.missions@);
        }
        best
    }

    pub fn issue_already_queued(&self, colony_id: &str, n: i64) -> (r: bool)
        ensures
            r == issue_queued(self.missions@, colony_id@, n),
    {
        let mut i: usize = 0;
        while i < self.missions.len()
            invariant
                i <= self.missions@.len(),
                forall|j: int|
                    0 <= j < i ==> !(self.missions@[j].colony_id@ == colony_id@
                        && self.missions@[j].github_issue_number == Some(n)),
            decreases self.missions@.len() - i,
        {
            if self.missions[i].github_issue_number == Some(n) && text_eq(
                self.missions[i].colony_id.as_str(),
                colony_id,
            ) {
                return true;
            }
            i = i + 1;
        }
        false
    }

    /// Queues an issue, with random ids, as a pending mission at the end of the colony's queue
    /// (workflow `dev-task` unless another is named), starts the next queued
    /// mission if none is running, and schedules.
    pub fn queue_issue(
        &mut self,
        registry: &WorkflowRegistry,
        colony_id: &str,
        issue_number: i64,
        workflow: Option<String>,
        title: &str,
        body: &str,
        now: u64,
    ) -> (r: Result<(Mission, Vec<Assignment>), ApiError>)
        requires
            old(self).wf(),
        ensures
            final(self).wf(),
            r is Ok && queue_serial(old(self).missions@, colony_id@) ==> queue_serial(final(self).missions@, colony_id@),
            match r {
                Ok((m, a)) => {
                    &&& !issue_queued(old(self).missions@, colony_id@, issue_number)
                    &&& m.colony_id@ == colony_id@
                    &&& m.status == MissionStatus::Pending
                    &&& m.queue_position == Some((max_position(old(self).missions@, colony_id@) + 1) as i64)
                    &&& m.github_issue_number == Some(issue_number)
                    &&& (m.workflow_name matches Some(w) && w@ == (match workflow {
                        Some(x) => x@,
                        None => "dev-task"@,
                    }))
                    &&& exists|i: int|
                        0 <= i < old(self).colonies@.len() && old(self).colonies@[i].id@ == colony_id@
                            && prompt_from_repo(old(self).colonies@[i].repo, m.prompt@, issue_number, title@, body@)
                    &&& m.created_at_ms == now
                    &&& queued_then_ticked(*old(self), *final(self), *registry, m, a@, colony_id@, now)
                },
                Err(e) => {
                    &&& e.kind != ErrorKind::Internal ==> *final(self) == *old(self)
                    &&& crate::store::same_contents(*final(self), *old(self))
                    &&& (e.kind == ErrorKind::NotFound) == !has_colony(old(self).colonies@, colony_id@)
                    &&& (e.kind == ErrorKind::BadRequest) == (has_colony(old(self).colonies@, colony_id@) && (
                    colony_without_repo(old(self).colonies@, colony_id@) || issue_queued(
                        old(self).missions@,
                        colony_id@,
                        issue_number,
                    )))
                },
            },
    {
        let mut n: usize = 0;
        if !self.queue_has_running(colony_id) {
            let name = match self.next_queued_mission(colony_id) {
                Some(k) => crate::model::clone_text(&self.missions[k].workflow_name),
                None => match &workflow {
                    Some(w) => Some(w.clone()),
                    None => Some("dev-task".to_string()),
                },
            };
            if let Some(w) = name {
                if let Some(m) = registry.get(w.as_str()) {
                    n = m.steps.len();
                }
            }
        }
        let mut task_ids: Vec<String> = Vec::new();
        let mut q: usize = 0;
        while q < n
            decreases n - q,
        {
            task_ids.push(crate::trusted::new_uuid_text());
            q = q + 1;
        }
        let id = crate::trusted::new_uuid_text();
        self.queue_issue_with_ids(registry, id, task_ids, colony_id, issue_number, workflow, title, body, now)
    }

    /// Queues an issue as pending mission `id` at the end of the colony's
    /// queue (workflow `dev-task` unless another is named), starts the next
    /// queued mission if none is running (its tasks named by `task_ids`), and
    /// schedules. Fails with an internal error, changing nothing, exactly when
    /// a valid request meets a full position counter, an `id` in use, or
    /// `task_ids` that cannot name the started mission's tasks.
    pub fn queue_issue_with_ids(
        &mut self,
        registry: &WorkflowRegistry,
        id: String,
        task_ids: Vec<String>,
        colony_id: &str,
        issue_number: i64,
        workflow: Option<String>,
        title: &str,
        body: &str,
        now: u64,
    ) -> (r: Result<(Mission, Vec<Assignment>), ApiError>)
        requires
            old(self).wf(),
        ensures
            final(self).wf(),
            r is Ok && queue_serial(old(self).missions@, colony_id@) ==> queue_serial(final(self).missions@, colony_id@),
            match r {
                Ok((m, a)) => {
                    &&& !issue_queued(old(self).missions@, colony_id@, issue_number)
                    &&& m.id == id
                    &&& m.colony_id@ == colony_id@
                    &&& m.status == MissionStatus::Pending
                    &&& m.queue_position == Some((max_position(old(self).missions@, colony_id@) + 1) as i64)
                    &&& m.github_issue_number == Some(issue_number)
                    &&& (m.workflow_name matches Some(w) && w@ == (match workflow {
                        Some(x) => x@,
                        None => "dev-task"@,
                    }))
                    &&& exists|i: int|
                        0 <= i < old(self).colonies@.len() && old(self).colonies@[i].id@ == colony_id@
                            && prompt_from_repo(old(self).colonies@[i].repo, m.prompt@, issue_number, title@, body@)
                    &&& m.created_at_ms == now
                    &&& queued_then_ticked(*old(self), *final(self), *registry, m, a@, colony_id@, now)
                },
                Err(e) => {
                    &&& e.kind != ErrorKind::Internal ==> *final(self) == *old(self)
                    &&& crate::store::same_contents(*final(self), *old(self))
                    &&& (e.kind == ErrorKind::NotFound) == !has_colony(old(self).colonies@, colony_id@)
                    &&& (e.kind == ErrorKind::BadRequest) == (has_colony(old(self).colonies@, colony_id@) && (
                    colony_without_repo(old(self).colonies@, colony_id@) || issue_queued(
                        old(self).missions@,
                        colony_id@,
                        issue_number,
                    )))
                    &&& (e.kind == ErrorKind::Internal) == (has_colony(old(self).colonies@, colony_id@)
                        && !colony_without_repo(old(self).colonies@, colony_id@) && !issue_queued(
                        old(self).missions@,
                        colony_id@,
                        issue_number,
                    ) && (max_position(old(self).missions@, colony_id@) == i64::MAX
                        || crate::store::id_in_use(*old(self), id@) || !queue_activation_fits(
                        *old(self),
                        *registry,
                        colony_id@,
                        match workflow {
                            Some(x) => x@,
                            None => "dev-task"@,
                        },
                        task_ids@,
                    )))
                },
            },
    {
        let repo = match self.queue_target(colony_id) {
            Ok(repo) => repo,
            Err(e) => return Err(e),
        };
        if self.issue_already_queued(colony_id, issue_number) {
            return Err(ApiError::bad_request("issue is already queued in this colony"));
        }
        proof {
            if colony_without_repo(self.colonies@, colony_id@) {
                let i = choose|i: int| 0 <= i < self.colonies@.len() && self.colonies@[i].id@ == colony_id@
                    && self.colonies@[i].repo == Some(repo);
                let j = choose|j: int| 0 <= j < self.colonies@.len() && self.colonies@[j].id@ == colony_id@
                    && self.colonies@[j].repo is None;
                assert(i == j);
            }
        }
        let top = self.max_queue_position(colony_id);
        if top == i64::MAX {
            return Err(ApiError::internal("queue position out of range"));
        }
        if self.id_in_use(id.as_str()) {
            return Err(ApiError::internal("id is already in use"));
        }
        let busy = self.queue_has_running(colony_id);
        let nq = self.next_queued_mission(colony_id);
        let mut prompt = repo.clone();
        prompt.append("#");
        let n = format_i64(issue_number);
        prompt.append(n.as_str());
        prompt.append(": ");
        prompt.append(title);
        prompt.append("\n\n");
        prompt.append(body);
        let workflow_name = match workflow {
            Some(w) => w,
            None => "dev-task".to_string(),
        };
        let ghost wf = workflow_name@;
        let mission = Mission {
            id,
            colony_id: colony_id.to_string(),
            prompt,
            workflow_name: Some(workflow_name),
            status: MissionStatus::Pending,
            worktree_path: None,
            queue_position: Some(top + 1),
            github_issue_number: Some(issue_number),
            github_pr_number: None,
            created_at_ms: now,
        };
        let ghost before_push = self.missions@;
        self.missions.push(mission.clone());
        proof {
            if queue_serial(before_push, colony_id@) {
                assert forall|i: int, j: int|
                    0 <= i < self.missions@.len() && 0 <= j < self.missions@.len() && queued_in(
                        self.missions@[i],
                        colony_id@,
                    ) && queued_in(self.missions@[j], colony_id@) && self.missions@[i].status
                        == MissionStatus::Running && self.missions@[j].status == MissionStatus::Running
                    implies i == j by {
                    if i < before_push.len() {
                        assert(self.missions@[i] == before_push[i]);
                    }
                    if j < before_push.len() {
                        assert(self.missions@[j] == before_push[j]);
                    }
                }
            }
        }
        let ghost mid = *self;
        proof {
            lemma_pushed_queue(old(self).missions@, mission, colony_id@, top as int);
            assert(mid.missions@ == old(self).missions@.push(mission));
            assert(busy == queue_busy(mid.missions@, colony_id@));
            if let Some(k) = nq {
                assert(next_in_queue(mid.missions@, colony_id@, k as int));
                lemma_next_unique(mid.missions@, colony_id@, k as int);
                assert(mid.missions@[k as int] == old(self).missions@[k as int]);
            } else {
                assert(next_in_queue(mid.missions@, colony_id@, old(self).missions@.len() as int));
                lemma_next_unique(mid.missions@, colony_id@, old(self).missions@.len() as int);
                assert(resolvable(*registry, mission) == registry.has_name(wf));
            }
            assert(activation_ids_fit(mid, *registry, colony_id@, task_ids@) == queue_activation_fits(
                *old(self),
                *registry,
                colony_id@,
                wf,
                task_ids@,
            ));
        }
        match self.activate_next_mission_with_ids(registry, colony_id, task_ids, now) {
            Ok(()) => {},
            Err(e) => {
                self.missions.pop();
                proof {
                    assert(self.missions@ =~= old(self).missions@);
                }
                return Err(e);
            },
        }
        let ghost m2 = *self;
        let assignments = self.schedule_tick(now);
        proof {
            assert(mid.missions@ == old(self).missions@.push(mission));
            assert(activation_done(mid, m2, *registry, colony_id@, now, true));
            assert(tick_done(m2, *self, assignments@, now));
        }
        Ok((mission, assignments))
    }

    /// Deletes a pending mission from its colony's queue.
    pub fn remove_from_queue(&mut self, colony_id: &str, mission_id: &str) -> (r: Result<(), ApiError>)
        requires
            old(self).wf(),
        ensures
            final(self).wf(),
            final(self).colonies == old(self).colonies,
            final(self).crabs == old(self).crabs,
            final(self).tasks == old(self).tasks,
            final(self).deps == old(self).deps,
            final(self).runs == old(self).runs,
            match r {
                Ok(()) => exists|i: int|
                    0 <= i < old(self).missions@.len() && old(self).missions@[i].id@ == mission_id@
                        && queued_in(old(self).missions@[i], colony_id@) && old(self).missions@[i].status
                        == MissionStatus::Pending && final(self).missions@ == old(self).missions@.remove(i),
                Err(e) => {
                    &&& *final(self) == *old(self)
                    &&& (e.kind == ErrorKind::NotFound) == !(exists|i: int|
                        0 <= i < old(self).missions@.len() && old(self).missions@[i].id@ == mission_id@
                            && queued_in(old(self).missions@[i], colony_id@))
                    &&& (e.kind == ErrorKind::BadRequest) == (exists|i: int|
                        0 <= i < old(self).missions@.len() && old(self).missions@[i].id@ == mission_id@
                            && queued_in(old(self).missions@[i], colony_id@)
                            && old(self).missions@[i].status != MissionStatus::Pending)
                    &&& e.kind != ErrorKind::Internal
                },
            },
    {
        let i = match self.find_mission(mission_id) {
            Some(i) => i,
            None => return Err(ApiError::not_found("mission not found in queue")),
        };
        if !(self.missions[i].queue_position.is_some() && text_eq(
            self.missions[i].colony_id.as_str(),
            colony_id,
        )) {
            return Err(ApiError::not_found("mission not found in queue"));
        }
        if self.missions[i].status != MissionStatus::Pending {
            return Err(ApiError::bad_request("can only remove pending missions from queue"));
        }
        self.missions.remove(i);
        proof {
            assert forall|a: int, b: int|
                0 <= a < self.missions@.len() && 0 <= b < self.missions@.len() && a != b implies self.missions@[a].id@
                    != self.missions@[b].id@ by {
                let a0 = if a < i { a } else { a + 1 };
                let b0 = if b < i { b } else { b + 1 };
                assert(self.missions@[a] == old(self).missions@[a0]);
                assert(self.missions@[b] == old(self).missions@[b0]);
            }
        }
        Ok(())
    }
}

} // verus!

verus! {

/// Queue position of a mission, 0 outside the queue.
pub open spec fn pos_of(m: Mission) -> int {
    match m.queue_position {
        Some(p) => p as int,
        None => 0,
    }
}

/// `a` comes before `b` in the queue: a smaller position, or the same one and
/// stored earlier.
pub open spec fn queue_before(missions: Seq<Mission>, a: int, b: int) -> bool {
    pos_of(missions[a]) < pos_of(missions[b]) || (pos_of(missions[a]) == pos_of(missions[b]) && a < b)
}

/// `r` lists the indices of colony `c`'s queued missions, each once, in queue
/// order.
pub open spec fn queue_listed(missions: Seq<Mission>, c: Seq<char>, r: Seq<usize>) -> bool {
    &&& forall|k: int| 0 <= k < r.len() ==> #[trigger] r[k] < missions.len() && queued_in(missions[r[k] as int], c)
    &&& forall|i: int|
        0 <= i < missions.len() && #[trigger] queued_in(missions[i], c) ==> exists|k: int|
            0 <= k < r.len() && r[k] == i
    &&& forall|a: int, b: int| 0 <= a < b < r.len() ==> queue_before(missions, #[trigger] r[a] as int, #[trigger] r[b] as int)
}

impl Store {
    /// The indices of colony `colony_id`'s queued missions in queue order.
    pub fn queue_of(&self, colony_id: &str) -> (r: Vec<usize>)
        ensures
            queue_listed(self.missions@, colony_id@, r@),
    {
        let mut r: Vec<usize> = Vec::new();
        let mut i: usize = 0;
        while i < self.missions.len()
            invariant
                i <= self.missions@.len(),
                forall|k: int| 0 <= k < r@.len() ==> #[trigger] r@[k] < i && queued_in(self.missions@[r@[k] as int], colony_id@),
                forall|x: int|
                    0 <= x < i && #[trigger] queued_in(self.missions@[x], colony_id@) ==> exists|k: int|
                        0 <= k < r@.len() && r@[k] == x,
                forall|a: int, b: int|
                    0 <= a < b < r@.len() ==> queue_before(self.missions@, #[trigger] r@[a] as int, #[trigger] r@[b] as int),
            decreases self.missions@.len() - i,
        {
            if self.missions[i].queue_position.is_some() && text_eq(self.missions[i].colony_id.as_str(), colony_id) {
                let p_i: i64 = self.missions[i].queue_position.unwrap();
                let mut p: usize = 0;
                while p < r.len() && self.missions[r[p]].queue_position.unwrap_or(0) <= p_i
                    invariant
                        p <= r@.len(),
                        forall|k: int| 0 <= k < r@.len() ==> #[trigger] r@[k] < i && queued_in(self.missions@[r@[k] as int], colony_id@),
                        forall|k: int| 0 <= k < p ==> pos_of(self.missions@[#[trigger] r@[k] as int]) <= p_i,
                        i < self.missions@.len(),
                        pos_of(self.missions@[i as int]) == p_i,
                    decreases r@.len() - p,
                {
                    p = p + 1;
                }
                let ghost prev = r@;
                proof {
                    assert forall|k: int| p <= k < prev.len() implies pos_of(self.missions@[#[trigger] prev[k] as int]) > p_i by {
                        if p < prev.len() {
                            assert(pos_of(self.missions@[prev[p as int] as int]) > p_i);
                            if k > p {
                                assert(queue_before(self.missions@, prev[p as int] as int, prev[k] as int));
                            }
                        }
                    }
                }
                r.insert(p, i);
                proof {
                    assert(r@ =~= prev.insert(p as int, i));
                    assert forall|a: int, b: int| 0 <= a < b < r@.len() implies queue_before(
                        self.missions@,
                        #[trigger] r@[a] as int,
                        #[trigger] r@[b] as int,
                    ) by {
                        if b < p {
                            assert(r@[a] == prev[a] && r@[b] == prev[b]);
                        } else if b == p {
                            assert(r@[a] == prev[a]);
                        } else if a < p {
                            assert(r@[a] == prev[a] && r@[b] == prev[b - 1]);
                            assert(pos_of(self.missions@[prev[b - 1] as int]) > p_i);
                        } else if a == p {
                            assert(r@[b] == prev[b - 1]);
                        } else {
                            assert(r@[a] == prev[a - 1] && r@[b] == prev[b - 1]);
                        }
                    }
                    assert forall|x: int|
                        0 <= x < i + 1 && #[trigger] queued_in(self.missions@[x], colony_id@) implies exists|k: int|
                            0 <= k < r@.len() && r@[k] == x by {
                        if x < i {
                            let k = choose|k: int| 0 <= k < prev.len() && prev[k] == x;
                            if k < p {
                                assert(r@[k] == x);
                            } else {
                                assert(r@[k + 1] == x);
                            }
                        } else {
                            assert(r@[p as int] == x);
                        }
                    }
                    assert forall|k: int| 0 <= k < r@.len() implies #[trigger] r@[k] < i + 1 && queued_in(
                        self.missions@[r@[k] as int],
                        colony_id@,
                    ) by {
                        if k < p {
                            assert(r@[k] == prev[k]);
                        } else if k > p {
                            assert(r@[k] == prev[k - 1]);
                        }
                    }
                }
            }
            i = i + 1;
        }
        r
    }
}

} // verus!

//! Workflow manifests, the registry that holds them, and the expander that
//! turns a manifest into a mission's tasks and dependency edges.

use vstd::prelude::*;
use crate::decimal::{decimal_text, format_u64};
use crate::model::{clone_text, ApiError, ErrorKind, Task, TaskDep};
use crate::trusted::{json_object_number, json_object_text, json_object_text_number, json_quoted, replace_all, replace_text};
use crate::status::TaskStatus;
use crate::store::{has_colony, has_mission, has_run, has_task, Store};
use crate::text::text_eq;

verus! {

/// Name, description and version of a workflow.
#[derive(Debug)]
pub struct WorkflowMeta {
    pub name: String,
    pub description: String,
    pub version: String,
}

/// One step of a workflow: a role, a prompt template file, the steps it waits
/// for, an optional condition and an optional retry budget.
#[derive(Debug)]
pub struct WorkflowStep {
    pub id: String,
    pub role: String,
    pub prompt_file: String,
    pub depends_on: Vec<String>,
    pub condition: Option<String>,
    pub max_retries: u32,
}

/// A parsed workflow manifest.
#[derive(Debug)]
pub struct WorkflowManifest {
    pub workflow: WorkflowMeta,
    pub steps: Vec<WorkflowStep>,
}

/// `a` sorts strictly before `b`, character by character.
pub open spec fn lex_lt(a: Seq<char>, b: Seq<char>) -> bool
    decreases a.len(),
{
    if a.len() == 0 {
        b.len() > 0
    } else if b.len() == 0 {
        false
    } else if a[0] != b[0] {
        a[0] < b[0]
    } else {
        lex_lt(a.drop_first(), b.drop_first())
    }
}

pub proof fn lemma_lex_lt_transitive(a: Seq<char>, b: Seq<char>, c: Seq<char>)
    requires
        lex_lt(a, b),
        lex_lt(b, c),
    ensures
        lex_lt(a, c),
    decreases a.len(),
{
    if a.len() > 0 && b.len() > 0 && c.len() > 0 && a[0] == b[0] && b[0] == c[0] {
        lemma_lex_lt_transitive(a.drop_first(), b.drop_first(), c.drop_first());
    }
}

pub proof fn lemma_lex_lt_irreflexive(a: Seq<char>)
    ensures
        !lex_lt(a, a),
    decreases a.len(),
{
    if a.len() > 0 {
        lemma_lex_lt_irreflexive(a.drop_first());
    }
}

pub proof fn lemma_lex_lt_total(a: Seq<char>, b: Seq<char>)
    ensures
        a == b || lex_lt(a, b) || lex_lt(b, a),
    decreases a.len(),
{
    if a.len() > 0 && b.len() > 0 && a[0] == b[0] {
        lemma_lex_lt_total(a.drop_first(), b.drop_first());
        if a.drop_first() == b.drop_first() {
            assert(a =~= seq![a[0]] + a.drop_first());
            assert(b =~= seq![b[0]] + b.drop_first());
        }
    } else if a.len() == 0 && b.len() == 0 {
        assert(a =~= b);
    }
}

/// Compares two strings in character order.
pub fn text_lt(a: &str, b: &str) -> (r: bool)
    ensures
        r == lex_lt(a@, b@),
{
    let n = a.unicode_len();
    let m = b.unicode_len();
    let mut i: usize = 0;
    proof {
        assert(a@.subrange(0, n as int) =~= a@);
        assert(b@.subrange(0, m as int) =~= b@);
    }
    while i < n && i < m && a.get_char(i) == b.get_char(i)
        invariant
            n == a@.len(),
            m == b@.len(),
            i <= n,
            i <= m,
            lex_lt(a@, b@) == lex_lt(a@.subrange(i as int, n as int), b@.subrange(i as int, m as int)),
        decreases n - i,
    {
        proof {
            assert(a@.subrange(i as int, n as int).drop_first() =~= a@.subrange(i + 1, n as int));
            assert(b@.subrange(i as int, m as int).drop_first() =~= b@.subrange(i + 1, m as int));
        }
        i = i + 1;
    }
    if i == n {
        i < m
    } else if i == m {
        false
    } else {
        a.get_char(i) < b.get_char(i)
    }
}

/// The loaded manifests, kept sorted by name, and the prompt templates they
/// refer to, by file name.
#[derive(Debug)]
pub struct WorkflowRegistry {
    pub manifests: Vec<WorkflowManifest>,
    pub prompts: Vec<(String, String)>,
}

/// `k` is the first manifest called `name`.
pub open spec fn first_named(registry: WorkflowRegistry, name: Seq<char>, k: int) -> bool {
    &&& 0 <= k < registry.manifests@.len()
    &&& registry.manifests@[k].workflow.name@ == name
    &&& forall|j: int| 0 <= j < k ==> registry.manifests@[j].workflow.name@ != name
}

impl WorkflowRegistry {
    /// Manifest names are strictly increasing, hence unique.
    pub open spec fn wf(&self) -> bool {
        forall|i: int, j: int|
            0 <= i < j < self.manifests@.len() ==> lex_lt(
                self.manifests@[i].workflow.name@,
                self.manifests@[j].workflow.name@,
            )
    }

    pub open spec fn has_name(&self, name: Seq<char>) -> bool {
        exists|i: int| 0 <= i < self.manifests@.len() && self.manifests@[i].workflow.name@ == name
    }

    pub fn new() -> (r: WorkflowRegistry)
        ensures
            r.wf(),
            r.manifests@.len() == 0,
            r.prompts@.len() == 0,
    {
        WorkflowRegistry { manifests: Vec::new(), prompts: Vec::new() }
    }

    /// Adds a manifest; one with the same name is replaced.
    pub fn insert(&mut self, manifest: WorkflowManifest)
        requires
            old(self).wf(),
        ensures
            final(self).wf(),
            final(self).prompts == old(self).prompts,
            final(self).has_name(manifest.workflow.name@),
            forall|i: int|
                0 <= i < final(self).manifests@.len() && final(self).manifests@[i].workflow.name@
                    == manifest.workflow.name@ ==> final(self).manifests@[i] == manifest,
            forall|n: Seq<char>|
                n != manifest.workflow.name@ ==> (final(self).has_name(n) == old(self).has_name(n)),
            forall|i: int|
                0 <= i < old(self).manifests@.len() && old(self).manifests@[i].workflow.name@
                    != manifest.workflow.name@ ==> final(self).manifests@.contains(
                    old(self).manifests@[i],
                ),
    {
        let mut p: usize = 0;
        while p < self.manifests.len() && text_lt(
            self.manifests[p].workflow.name.as_str(),
            manifest.workflow.name.as_str(),
        )
            invariant
                *self == *old(self),
                p <= self.manifests@.len(),
                forall|i: int| 0 <= i < p ==> lex_lt(self.manifests@[i].workflow.name@, manifest.workflow.name@),
            decreases self.manifests@.len() - p,
        {
            p = p + 1;
        }
        let ghost name = manifest.workflow.name@;
        if p < self.manifests.len() && text_eq(
            self.manifests[p].workflow.name.as_str(),
            manifest.workflow.name.as_str(),
        ) {
            self.manifests.set(p, manifest);
            proof {
                assert forall|i: int| 0 <= i < self.manifests@.len() && self.manifests@[i].workflow.name@
                    == name implies i == p by {
                    if i < p {
                        lemma_lex_lt_irreflexive(name);
                    } else if i > p {
                        lemma_lex_lt_irreflexive(name);
                    }
                }
                assert(self.manifests@[p as int].workflow.name@ == name);
                assert forall|n: Seq<char>| n != name implies (self.has_name(n) == old(self).has_name(n)) by {
                    if self.has_name(n) {
                        let i = choose|i: int| 0 <= i < self.manifests@.len() && self.manifests@[i].workflow.name@ == n;
                        assert(old(self).manifests@[i].workflow.name@ == n);
                    }
                    if old(self).has_name(n) {
                        let i = choose|i: int| 0 <= i < old(self).manifests@.len() && old(self).manifests@[i].workflow.name@ == n;
                        assert(self.manifests@[i].workflow.name@ == n);
                    }
                }
                assert forall|i: int|
                    0 <= i < old(self).manifests@.len() && old(self).manifests@[i].workflow.name@
                        != name implies self.manifests@.contains(old(self).manifests@[i]) by {
                    assert(self.manifests@[i] == old(self).manifests@[i]);
                }
            }
        } else {
            proof {
                if p < self.manifests@.len() {
                    lemma_lex_lt_total(self.manifests@[p as int].workflow.name@, name);
                }
            }
            self.manifests.insert(p, manifest);
            proof {
                assert forall|i: int, j: int| 0 <= i < j < self.manifests@.len() implies lex_lt(
                    self.manifests@[i].workflow.name@,
                    self.manifests@[j].workflow.name@,
                ) by {
                    if j == p {
                    } else if i == p {
                        if j > p + 1 {
                            lemma_lex_lt_transitive(
                                name,
                                old(self).manifests@[p as int].workflow.name@,
                                old(self).manifests@[j - 1].workflow.name@,
                            );
                        }
                    } else if i < p && j > p {
                        if j - 1 > p {
                            lemma_lex_lt_transitive(
                                name,
                                old(self).manifests@[p as int].workflow.name@,
                                old(self).manifests@[j - 1].workflow.name@,
                            );
                        }
                        lemma_lex_lt_transitive(
                            old(self).manifests@[i].workflow.name@,
                            name,
                            old(self).manifests@[j - 1].workflow.name@,
                        );
                    }
                }
                assert forall|i: int| 0 <= i < self.manifests@.len() && self.manifests@[i].workflow.name@
                    == name implies i == p by {
                    if i < p {
                        lemma_lex_lt_irreflexive(name);
                    } else if i > p {
                        assert(lex_lt(name, self.manifests@[i].workflow.name@));
                        lemma_lex_lt_irreflexive(name);
                    }
                }
                assert(self.manifests@[p as int].workflow.name@ == name);
                assert forall|n: Seq<char>| n != name implies (self.has_name(n) == old(self).has_name(n)) by {
                    if self.has_name(n) {
                        let i = choose|i: int| 0 <= i < self.manifests@.len() && self.manifests@[i].workflow.name@ == n;
                        if i < p {
                            assert(old(self).manifests@[i].workflow.name@ == n);
                        } else {
                            assert(old(self).manifests@[i - 1].workflow.name@ == n);
                        }
                    }
                    if old(self).has_name(n) {
                        let i = choose|i: int| 0 <= i < old(self).manifests@.len() && old(self).manifests@[i].workflow.name@ == n;
                        if i < p {
                            assert(self.manifests@[i].workflow.name@ == n);
                        } else {
                            assert(self.manifests@[i + 1].workflow.name@ == n);
                        }
                    }
                }
                assert forall|i: int|
                    0 <= i < old(self).manifests@.len() && old(self).manifests@[i].workflow.name@
                        != name implies self.manifests@.contains(old(self).manifests@[i]) by {
                    if i < p {
                        assert(self.manifests@[i] == old(self).manifests@[i]);
                    } else {
                        assert(self.manifests@[i + 1] == old(self).manifests@[i]);
                    }
                }
            }
        }
    }

    /// The manifest called `name`.
    pub fn get(&self, name: &str) -> (r: Option<&WorkflowManifest>)
        ensures
            match r {
                Some(m) => m.workflow.name@ == name@ && self.manifests@.contains(*m) && exists|k: int|
                    first_named(*self, name@, k) && self.manifests@[k] == *m,
                None => !self.has_name(name@),
            },
    {
        let mut i: usize = 0;
        while i < self.manifests.len()
            invariant
                i <= self.manifests@.len(),
                forall|j: int| 0 <= j < i ==> self.manifests@[j].workflow.name@ != name@,
            decreases self.manifests@.len() - i,
        {
            if text_eq(self.manifests[i].workflow.name.as_str(), name) {
                return Some(&self.manifests[i]);
            }
            i = i + 1;
        }
        None
    }

    /// The names of all manifests, in increasing order.
    pub fn list_names(&self) -> (r: Vec<String>)
        requires
            self.wf(),
        ensures
            r@.len() == self.manifests@.len(),
            forall|i: int| 0 <= i < r@.len() ==> r@[i] == self.manifests@[i].workflow.name,
            forall|i: int, j: int| 0 <= i < j < r@.len() ==> lex_lt(r@[i]@, r@[j]@),
    {
        let mut names: Vec<String> = Vec::new();
        let mut i: usize = 0;
        while i < self.manifests.len()
            invariant
                i <= self.manifests@.len(),
                names@.len() == i,
                forall|j: int| 0 <= j < i ==> names@[j] == self.manifests@[j].workflow.name,
            decreases self.manifests@.len() - i,
        {
            names.push(self.manifests[i].workflow.name.clone());
            i = i + 1;
        }
        names
    }
}

/// The template stored last under file name `f`, or empty text.
pub open spec fn template_of(prompts: Seq<(String, String)>, f: Seq<char>) -> Seq<char>
    decreases prompts.len(),
{
    if prompts.len() == 0 {
        Seq::empty()
    } else if prompts.last().0@ == f {
        prompts.last().1@
    } else {
        template_of(prompts.drop_last(), f)
    }
}

impl WorkflowRegistry {
    /// Stores the text of a prompt template file.
    pub fn set_prompt(&mut self, file: String, content: String)
        ensures
            final(self).manifests == old(self).manifests,
            forall|f: Seq<char>|
                template_of(final(self).prompts@, f) == if f == file@ {
                    content@
                } else {
                    template_of(old(self).prompts@, f)
                },
    {
        self.prompts.push((file, content));
        proof {
            assert(self.prompts@.drop_last() =~= old(self).prompts@);
        }
    }

    /// The template text of a prompt file; empty when the file is unknown.
    pub fn load_prompt_file(&self, prompt_file: &str) -> (r: String)
        ensures
            r@ == template_of(self.prompts@, prompt_file@),
    {
        let mut i: usize = self.prompts.len();
        proof {
            assert(self.prompts@.subrange(0, i as int) =~= self.prompts@);
        }
        while i > 0
            invariant
                i <= self.prompts@.len(),
                template_of(self.prompts@, prompt_file@) == template_of(
                    self.prompts@.subrange(0, i as int),
                    prompt_file@,
                ),
            decreases i,
        {
            proof {
                assert(self.prompts@.subrange(0, i as int).drop_last() =~= self.prompts@.subrange(
                    0,
                    i - 1,
                ));
            }
            if text_eq(self.prompts[i - 1].0.as_str(), prompt_file) {
                return self.prompts[i - 1].1.clone();
            }
            i = i - 1;
        }
        String::new()
    }
}

/// `burrows/mission-<id>`: a mission's working directory.
pub open spec fn worktree_of(mission_id: Seq<char>) -> Seq<char> {
    "burrows/mission-"@ + mission_id
}

pub fn worktree_path(mission_id: &str) -> (r: String)
    ensures
        r@ == worktree_of(mission_id@),
{
    let mut s = "burrows/mission-".to_string();
    s.append(mission_id);
    s
}

/// A template with its three placeholders filled in: the mission prompt, an
/// empty context and the mission's working directory.
pub open spec fn rendered(template: Seq<char>, mission_prompt: Seq<char>, mission_id: Seq<char>) -> Seq<char> {
    replace_all(
        replace_all(
            replace_all(template, "{{mission_prompt}}"@, mission_prompt),
            "{{context}}"@,
            Seq::empty(),
        ),
        "{{worktree_path}}"@,
        worktree_of(mission_id),
    )
}

pub fn render_prompt(template: &str, mission_prompt: &str, mission_id: &str) -> (r: String)
    ensures
        r@ == rendered(template@, mission_prompt@, mission_id@),
{
    proof {
        reveal_strlit("{{mission_prompt}}");
        reveal_strlit("{{context}}");
        reveal_strlit("{{worktree_path}}");
        reveal_strlit("");
        assert(""@ =~= Seq::<char>::empty());
    }
    let a = replace_text(template, "{{mission_prompt}}", mission_prompt);
    let b = replace_text(a.as_str(), "{{context}}", "");
    let wt = worktree_path(mission_id);
    replace_text(b.as_str(), "{{worktree_path}}", wt.as_str())
}

/// `[<step id>] <role>`: the title of a step's task.
pub open spec fn step_title_of(step: WorkflowStep) -> Seq<char> {
    "["@ + step.id@ + "] "@ + step.role@
}

pub fn step_title(step: &WorkflowStep) -> (r: String)
    ensures
        r@ == step_title_of(*step),
{
    let mut s = "[".to_string();
    s.append(step.id.as_str());
    s.append("] ");
    s.append(step.role.as_str());
    s
}

/// The JSON object stored as a step task's context when the step has a
/// condition or a retry budget: only the fields present, keys in sorted order,
/// as `serde_json` writes a map.
pub open spec fn step_meta_json(condition: Option<String>, max_retries: u32) -> Option<Seq<char>> {
    match condition {
        Some(c) => if max_retries > 0 {
            Some(
                "{"@ + json_quoted("_condition"@) + ":"@ + json_quoted(c@) + ","@ + json_quoted(
                    "_max_retries"@,
                ) + ":"@ + decimal_text(max_retries as nat) + "}"@,
            )
        } else {
            Some("{"@ + json_quoted("_condition"@) + ":"@ + json_quoted(c@) + "}"@)
        },
        None => if max_retries > 0 {
            Some("{"@ + json_quoted("_max_retries"@) + ":"@ + decimal_text(max_retries as nat) + "}"@)
        } else {
            None
        },
    }
}

pub fn step_context(step: &WorkflowStep) -> (r: Option<String>)
    ensures
        match r {
            Some(t) => step_meta_json(step.condition, step.max_retries) == Some(t@),
            None => step_meta_json(step.condition, step.max_retries) is None,
        },
{
    match &step.condition {
        Some(c) => {
            if step.max_retries > 0 {
                proof {
                    reveal_strlit("_condition");
                    reveal_strlit("_max_retries");
                    let a = "_condition"@;
                    let b = "_max_retries"@;
                    assert(a.drop_first()[0] == 'c' && b.drop_first()[0] == 'm');
                    assert(lex_lt(a.drop_first(), b.drop_first()));
                    assert(lex_lt(a, b));
                }
                Some(json_object_text_number("_condition", c.as_str(), "_max_retries", step.max_retries))
            } else {
                Some(json_object_text("_condition", c.as_str()))
            }
        },
        None => {
            if step.max_retries > 0 {
                Some(json_object_number("_max_retries", step.max_retries))
            } else {
                None
            }
        },
    }
}

/// `k` is the last step with id `id`.
pub open spec fn last_step(steps: Seq<WorkflowStep>, id: Seq<char>, k: int) -> bool {
    &&& 0 <= k < steps.len()
    &&& steps[k].id@ == id
    &&& forall|q: int| k < q < steps.len() ==> steps[q].id@ != id
}

/// Position of the last step with id `id`.
pub fn find_last_step(steps: &Vec<WorkflowStep>, id: &str) -> (r: Option<usize>)
    ensures
        match r {
            Some(k) => last_step(steps@, id@, k as int),
            None => forall|q: int| 0 <= q < steps@.len() ==> steps@[q].id@ != id@,
        },
{
    let mut k: usize = steps.len();
    while k > 0
        invariant
            k <= steps@.len(),
            forall|q: int| k <= q < steps@.len() ==> steps@[q].id@ != id@,
        decreases k,
    {
        if text_eq(steps[k - 1].id.as_str(), id) {
            return Some(k - 1);
        }
        k = k - 1;
    }
    None
}

/// The task created for `step` of a mission, with id `id` and rendered prompt.
pub open spec fn step_task_ok(
    t: Task,
    step: WorkflowStep,
    id: Seq<char>,
    mission_id: Seq<char>,
    prompt: Seq<char>,
    now: u64,
) -> bool {
    &&& t.id@ == id
    &&& t.mission_id@ == mission_id
    &&& t.title@ == step_title_of(step)
    &&& t.assigned_crab_id is None
    &&& t.status == (if step.depends_on@.len() > 0 {
        TaskStatus::Blocked
    } else {
        TaskStatus::Queued
    })
    &&& t.step_id matches Some(sid) && sid == step.id
    &&& t.role matches Some(role) && role == step.role
    &&& t.prompt matches Some(p) && p@ == prompt
    &&& match t.context {
        Some(c) => step_meta_json(step.condition, step.max_retries) == Some(c@),
        None => step_meta_json(step.condition, step.max_retries) is None,
    }
    &&& t.created_at_ms == now
    &&& t.updated_at_ms == now
}

/// Edge `e` is declared by the manifest: step `s` lists a dependency that
/// names a step, and `e` links their tasks (the last step of each id).
pub open spec fn declared_edge(steps: Seq<WorkflowStep>, ids: Seq<String>, e: TaskDep) -> bool {
    exists|s: int, j: int, a: int, b: int|
        #![trigger steps[s].depends_on@[j], ids[a], ids[b]]
        0 <= s < steps.len() && 0 <= j < steps[s].depends_on@.len() && last_step(
            steps,
            steps[s].id@,
            a,
        ) && last_step(steps, steps[s].depends_on@[j]@, b) && e.task_id@ == ids[a]@
            && e.depends_on_task_id@ == ids[b]@
}

/// Some edge among `deps[from..]` links task `x` to task `y`.
pub open spec fn has_edge_from(deps: Seq<TaskDep>, from: int, x: Seq<char>, y: Seq<char>) -> bool {
    exists|q: int| from <= q < deps.len() && deps[q].task_id@ == x && deps[q].depends_on_task_id@ == y
}

/// What expanding a manifest into a mission did: one new task per step, in
/// step order, and exactly the declared edges between them.
pub open spec fn expanded(
    before: Store,
    after: Store,
    registry: WorkflowRegistry,
    steps: Seq<WorkflowStep>,
    ids: Seq<String>,
    mission_id: Seq<char>,
    mission_prompt: Seq<char>,
    now: u64,
) -> bool {
    &&& ids.len() == steps.len()
    &&& forall|k: int| 0 <= k < ids.len() ==> !has_task(before.tasks@, #[trigger] ids[k]@)
    &&& forall|k: int, q: int| 0 <= k < q < ids.len() ==> ids[k]@ != ids[q]@
    &&& after.tasks@.len() == before.tasks@.len() + steps.len()
    &&& after.tasks@.subrange(0, before.tasks@.len() as int) == before.tasks@
    &&& forall|k: int|
        #![trigger after.tasks@[before.tasks@.len() + k]]
        0 <= k < steps.len() ==> step_task_ok(
            after.tasks@[before.tasks@.len() + k],
            steps[k],
            ids[k]@,
            mission_id,
            rendered(template_of(registry.prompts@, steps[k].prompt_file@), mission_prompt, mission_id),
            now,
        )
    &&& after.deps@.len() >= before.deps@.len()
    &&& after.deps@.subrange(0, before.deps@.len() as int) == before.deps@
    &&& forall|q: int|
        before.deps@.len() <= q < after.deps@.len() ==> declared_edge(steps, ids, #[trigger] after.deps@[q])
    &&& forall|s: int, j: int, a: int, b: int|
        #![trigger steps[s].depends_on@[j], ids[a], ids[b]]
        0 <= s < steps.len() && 0 <= j < steps[s].depends_on@.len() && last_step(
            steps,
            steps[s].id@,
            a,
        ) && last_step(steps, steps[s].depends_on@[j]@, b) ==> has_edge_from(
            after.deps@,
            before.deps@.len() as int,
            ids[a]@,
            ids[b]@,
        )
    &&& after.colonies == before.colonies
    &&& after.crabs == before.crabs
    &&& after.missions == before.missions
    &&& after.runs == before.runs
}

} // verus!

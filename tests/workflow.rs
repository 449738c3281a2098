use crabitat::condition::{evaluate_condition, ContextMap};
use crabitat::merge_wait::{merge_outcome, poll_target, MergeOutcome};
use crabitat::model::ErrorKind;
use crabitat::status::{BurrowMode, MissionStatus, RunStatus, TaskStatus};
use crabitat::store::Store;
use crabitat::workflow::{WorkflowManifest, WorkflowMeta, WorkflowRegistry, WorkflowStep};

fn step(id: &str, role: &str, deps: &[&str], condition: Option<&str>, max_retries: u32) -> WorkflowStep {
    WorkflowStep {
        id: id.to_string(),
        role: role.to_string(),
        prompt_file: format!("{id}.md"),
        depends_on: deps.iter().map(|d| d.to_string()).collect(),
        condition: condition.map(|c| c.to_string()),
        max_retries,
    }
}

fn manifest(name: &str, steps: Vec<WorkflowStep>) -> WorkflowManifest {
    WorkflowManifest {
        workflow: WorkflowMeta { name: name.to_string(), description: String::new(), version: "1".to_string() },
        steps,
    }
}

fn task_of(store: &Store, mission: &str, step_id: &str) -> usize {
    (0..store.tasks.len())
        .find(|&i| store.tasks[i].mission_id == mission && store.tasks[i].step_id.as_deref() == Some(step_id))
        .unwrap()
}

/// Starts and finishes a run of the task for `step_id` by `crab`.
fn finish(
    store: &mut Store,
    registry: &WorkflowRegistry,
    mission: &str,
    step_id: &str,
    crab: &str,
    status: RunStatus,
    summary: &str,
    now: u64,
) -> Vec<crabitat::protocol::Assignment> {
    let t = task_of(store, mission, step_id);
    let task_id = store.tasks[t].id.clone();
    let run = store
        .start_run(None, mission.to_string(), task_id, crab.to_string(), "b".to_string(), BurrowMode::Worktree, None, None, now)
        .unwrap();
    store
        .complete_run(registry, &run.id, status, Some(summary.to_string()), None, None, now + 1)
        .unwrap()
        .1
}

fn colony_with_crabs(store: &mut Store, repo: Option<&str>, crabs: &[(&str, &str)]) -> String {
    let colony = store.create_colony("C".to_string(), None, repo.map(|r| r.to_string()), 1).unwrap().id;
    for (id, role) in crabs {
        store
            .register_crab(id.to_string(), colony.clone(), id.to_string(), role.to_string(), None, 2)
            .unwrap();
    }
    colony
}

fn dev_task_registry(extra: Vec<WorkflowStep>) -> WorkflowRegistry {
    let mut registry = WorkflowRegistry::new();
    let mut steps = vec![step("implement", "coder", &[], None, 0), step("review", "tester", &["implement"], None, 2)];
    steps.extend(extra);
    registry.insert(manifest("dev-task", steps));
    registry
}

#[test]
fn simple_linear_workflow() {
    let registry = dev_task_registry(vec![]);
    let mut store = Store::new();
    let colony = colony_with_crabs(&mut store, None, &[("k1", "coder"), ("k2", "tester")]);
    let (mission, assignments) = store
        .create_mission(&registry, colony, "M".to_string(), Some("dev-task".to_string()), 3)
        .unwrap();
    assert_eq!(mission.status, MissionStatus::Running);
    assert_eq!(store.tasks.len(), 2);
    assert_eq!(store.deps.len(), 1);
    let implement = task_of(&store, &mission.id, "implement");
    let review = task_of(&store, &mission.id, "review");
    assert_eq!(store.tasks[implement].status, TaskStatus::Assigned);
    assert_eq!(store.tasks[implement].assigned_crab_id.as_deref(), Some("k1"));
    assert_eq!(store.tasks[implement].title, "[implement] coder");
    assert_eq!(store.tasks[review].status, TaskStatus::Blocked);
    assert_eq!(assignments.len(), 1);
    assert_eq!(assignments[0].crab_id, "k1");
    assert_eq!(assignments[0].payload.step_id.as_deref(), Some("implement"));
    assert_eq!(assignments[0].payload.desired_status, TaskStatus::Running);
    let expected_path = format!("burrows/mission-{}", mission.id);
    assert_eq!(assignments[0].payload.worktree_path.as_deref(), Some(expected_path.as_str()));

    let assignments = finish(&mut store, &registry, &mission.id, "implement", "k1", RunStatus::Completed, "done", 10);
    assert_eq!(store.tasks[review].status, TaskStatus::Assigned);
    assert_eq!(store.tasks[review].context.as_deref(), Some("## implement\ndone"));
    assert_eq!(assignments.len(), 1);
    assert_eq!(assignments[0].crab_id, "k2");

    finish(&mut store, &registry, &mission.id, "review", "k2", RunStatus::Completed, "ok", 20);
    assert_eq!(store.missions[0].status, MissionStatus::Completed);
}

#[test]
fn conditional_skip_on_pass() {
    let registry = dev_task_registry(vec![step("fix", "coder", &["review"], Some("review.result == 'FAIL'"), 0)]);
    let mut store = Store::new();
    let colony = colony_with_crabs(&mut store, None, &[("k1", "coder"), ("k2", "tester")]);
    let (mission, _) = store
        .create_mission(&registry, colony, "M".to_string(), Some("dev-task".to_string()), 3)
        .unwrap();
    let fix = task_of(&store, &mission.id, "fix");
    assert_eq!(store.tasks[fix].context.as_deref(), Some("{\"_condition\":\"review.result == 'FAIL'\"}"));
    let review = task_of(&store, &mission.id, "review");
    assert_eq!(store.tasks[review].context.as_deref(), Some("{\"_max_retries\":2}"));
    finish(&mut store, &registry, &mission.id, "implement", "k1", RunStatus::Completed, "done", 10);
    finish(&mut store, &registry, &mission.id, "review", "k2", RunStatus::Completed, "{\"result\":\"PASS\"}", 20);
    assert_eq!(store.tasks[fix].status, TaskStatus::Skipped);
    assert_eq!(store.missions[0].status, MissionStatus::Completed);
}

#[test]
fn conditional_queue_on_fail_and_review_retry() {
    let registry = dev_task_registry(vec![step("fix", "coder", &["review"], Some("review.result == 'FAIL'"), 0)]);
    let mut store = Store::new();
    let colony = colony_with_crabs(&mut store, None, &[("k1", "coder"), ("k2", "tester")]);
    let (mission, _) = store
        .create_mission(&registry, colony, "M".to_string(), Some("dev-task".to_string()), 3)
        .unwrap();
    let fix = task_of(&store, &mission.id, "fix");
    let review = task_of(&store, &mission.id, "review");
    finish(&mut store, &registry, &mission.id, "implement", "k1", RunStatus::Completed, "done", 10);
    finish(&mut store, &registry, &mission.id, "review", "k2", RunStatus::Completed, "{\"result\":\"FAIL\"}", 20);
    assert_eq!(store.tasks[fix].status, TaskStatus::Assigned);
    assert_eq!(store.tasks[fix].assigned_crab_id.as_deref(), Some("k1"));
    let assignments = finish(&mut store, &registry, &mission.id, "fix", "k1", RunStatus::Completed, "fixed", 30);
    assert_eq!(store.tasks[review].status, TaskStatus::Assigned);
    assert_eq!(assignments.len(), 1);
    assert_eq!(assignments[0].crab_id, "k2");
    assert_eq!(store.missions[0].status, MissionStatus::Running);
}

#[test]
fn review_retry_budget_exhausted_fails_mission() {
    let mut registry = WorkflowRegistry::new();
    registry.insert(manifest(
        "dev-task",
        vec![
            step("implement", "coder", &[], None, 0),
            step("review", "tester", &["implement"], None, 0),
            step("fix", "coder", &["review"], Some("review.result == \"FAIL\""), 0),
        ],
    ));
    let mut store = Store::new();
    let colony = colony_with_crabs(&mut store, None, &[("k1", "coder"), ("k2", "tester")]);
    let (mission, _) = store
        .create_mission(&registry, colony, "M".to_string(), Some("dev-task".to_string()), 3)
        .unwrap();
    let review = task_of(&store, &mission.id, "review");
    finish(&mut store, &registry, &mission.id, "implement", "k1", RunStatus::Completed, "done", 10);
    finish(&mut store, &registry, &mission.id, "review", "k2", RunStatus::Completed, "{\"result\":\"FAIL\"}", 20);
    finish(&mut store, &registry, &mission.id, "fix", "k1", RunStatus::Completed, "fixed", 30);
    assert_eq!(store.tasks[review].status, TaskStatus::Failed);
    assert_eq!(store.missions[0].status, MissionStatus::Failed);
}

#[test]
fn failure_cascade() {
    let mut registry = WorkflowRegistry::new();
    registry.insert(manifest(
        "chain",
        vec![step("a", "coder", &[], None, 0), step("b", "coder", &["a"], None, 0), step("c", "coder", &["b"], None, 0)],
    ));
    let mut store = Store::new();
    let colony = colony_with_crabs(&mut store, None, &[("k1", "coder")]);
    let (mission, _) = store.create_mission(&registry, colony, "M".to_string(), Some("chain".to_string()), 3).unwrap();
    let assignments = finish(&mut store, &registry, &mission.id, "a", "k1", RunStatus::Failed, "broke", 10);
    let b = task_of(&store, &mission.id, "b");
    let c = task_of(&store, &mission.id, "c");
    assert_eq!(store.tasks[b].status, TaskStatus::Failed);
    assert_eq!(store.tasks[c].status, TaskStatus::Failed);
    assert_eq!(store.missions[0].status, MissionStatus::Failed);
    assert!(assignments.is_empty());
}

#[test]
fn sequential_mission_queue() {
    let mut registry = WorkflowRegistry::new();
    registry.insert(manifest("dev-task", vec![step("implement", "coder", &[], None, 0)]));
    let mut store = Store::new();
    let colony = colony_with_crabs(&mut store, Some("o/r"), &[("k1", "any")]);
    assert_eq!(store.queue_target(&colony).unwrap(), "o/r");
    let mut ids = Vec::new();
    for n in 1..=3i64 {
        let (m, _) = store
            .queue_issue(&registry, &colony, n, None, "Title", "Body", 10 + n as u64)
            .unwrap();
        assert_eq!(m.queue_position, Some(n));
        assert_eq!(m.workflow_name.as_deref(), Some("dev-task"));
        ids.push(m.id);
    }
    assert_eq!(store.missions[0].prompt, "o/r#1: Title\n\nBody");
    assert_eq!(store.missions[0].status, MissionStatus::Running);
    assert_eq!(store.missions[1].status, MissionStatus::Pending);
    assert_eq!(store.missions[2].status, MissionStatus::Pending);
    let e = store.queue_issue(&registry, &colony, 2, None, "T", "B", 20).unwrap_err();
    assert_eq!(e.kind, ErrorKind::BadRequest);

    finish(&mut store, &registry, &ids[0], "implement", "k1", RunStatus::Completed, "done", 30);
    assert_eq!(store.missions[0].status, MissionStatus::Completed);
    assert_eq!(store.missions[1].status, MissionStatus::Running);
    assert_eq!(store.missions[2].status, MissionStatus::Pending);

    let e = store.remove_from_queue(&colony, &ids[1]).unwrap_err();
    assert_eq!(e.kind, ErrorKind::BadRequest);
    store.remove_from_queue(&colony, &ids[2]).unwrap();
    assert_eq!(store.missions.len(), 2);
    let e = store.remove_from_queue(&colony, &ids[2]).unwrap_err();
    assert_eq!(e.kind, ErrorKind::NotFound);
}

#[test]
fn queue_needs_a_repo() {
    let registry = WorkflowRegistry::new();
    let mut store = Store::new();
    let colony = colony_with_crabs(&mut store, None, &[]);
    assert_eq!(store.queue_target(&colony).unwrap_err().kind, ErrorKind::BadRequest);
    assert_eq!(store.queue_target("nope").unwrap_err().kind, ErrorKind::NotFound);
    let e = store.queue_issue(&registry, "nope", 1, None, "T", "B", 1).unwrap_err();
    assert_eq!(e.kind, ErrorKind::NotFound);
}

#[test]
fn merge_wait_completes_on_merge() {
    let mut registry = WorkflowRegistry::new();
    registry.insert(manifest("ship", vec![step("pr", "coder", &[], None, 0), step("merge-wait", "any", &["pr"], None, 0)]));
    let mut store = Store::new();
    let colony = colony_with_crabs(&mut store, Some("o/r"), &[("k1", "coder"), ("k2", "any")]);
    let (mission, _) = store.create_mission(&registry, colony, "M".to_string(), Some("ship".to_string()), 3).unwrap();
    finish(&mut store, &registry, &mission.id, "pr", "k1", RunStatus::Completed, "{\"result\":\"42\"}", 10);
    assert_eq!(store.missions[0].github_pr_number, Some(42));
    let mw = task_of(&store, &mission.id, "merge-wait");
    assert_eq!(store.tasks[mw].status, TaskStatus::Queued);
    let items = store.merge_wait_items();
    assert_eq!(items.len(), 1);
    let (repo, n) = poll_target(&items[0]).unwrap();
    assert_eq!(repo, "o/r");
    assert_eq!(n, 42);
    let outcome = merge_outcome("MERGED", &None);
    assert_eq!(outcome, MergeOutcome::Merged);
    store
        .apply_merge_outcome(&registry, &items[0].task_id, &items[0].mission_id, n, outcome, 20)
        .unwrap();
    assert_eq!(store.tasks[mw].status, TaskStatus::Completed);
    let last = store.runs.last().unwrap();
    assert_eq!(last.crab_id, "system");
    assert_eq!(last.summary.as_deref(), Some("PR #42 merged"));
    assert_eq!(store.missions[0].status, MissionStatus::Completed);
}

#[test]
fn merge_wait_without_pr_number_is_not_polled() {
    let mut registry = WorkflowRegistry::new();
    registry.insert(manifest("ship", vec![step("merge-wait", "any", &[], None, 0)]));
    let mut store = Store::new();
    let colony = colony_with_crabs(&mut store, Some("o/r"), &[("k2", "any")]);
    let (mission, assignments) = store.create_mission(&registry, colony, "M".to_string(), Some("ship".to_string()), 3).unwrap();
    assert!(assignments.is_empty());
    let items = store.merge_wait_items();
    assert_eq!(items.len(), 1);
    assert!(poll_target(&items[0]).is_none());
    let mw = task_of(&store, &mission.id, "merge-wait");
    assert_eq!(store.tasks[mw].status, TaskStatus::Queued);
}

#[test]
fn merge_outcomes() {
    assert_eq!(merge_outcome("OPEN", &Some("2024-01-01".to_string())), MergeOutcome::Merged);
    assert_eq!(merge_outcome("CLOSED", &None), MergeOutcome::Closed);
    assert_eq!(merge_outcome("OPEN", &None), MergeOutcome::Open);
}

#[test]
fn closed_pr_fails_merge_wait() {
    let mut registry = WorkflowRegistry::new();
    registry.insert(manifest("ship", vec![step("merge-wait", "any", &[], None, 0)]));
    let mut store = Store::new();
    let colony = colony_with_crabs(&mut store, Some("o/r"), &[]);
    let (mission, _) = store.create_mission(&registry, colony, "M".to_string(), Some("ship".to_string()), 3).unwrap();
    let mw = task_of(&store, &mission.id, "merge-wait");
    let id = store.tasks[mw].id.clone();
    let out = store.apply_merge_outcome(&registry, &id, &mission.id, 7, MergeOutcome::Open, 5).unwrap();
    assert!(out.is_empty());
    assert_eq!(store.tasks[mw].status, TaskStatus::Queued);
    store.apply_merge_outcome(&registry, &id, &mission.id, 7, MergeOutcome::Closed, 6).unwrap();
    assert_eq!(store.tasks[mw].status, TaskStatus::Failed);
    assert_eq!(store.missions[0].status, MissionStatus::Failed);
}

#[test]
fn edge_free_workflow_schedules_one_task_per_mission() {
    let mut registry = WorkflowRegistry::new();
    registry.insert(manifest("flat", vec![step("a", "any", &[], None, 0), step("b", "any", &[], None, 0)]));
    let mut store = Store::new();
    let colony = colony_with_crabs(&mut store, None, &[("k1", "any"), ("k2", "any")]);
    let (mission, assignments) = store.create_mission(&registry, colony, "M".to_string(), Some("flat".to_string()), 3).unwrap();
    assert!(store.deps.is_empty());
    let a = task_of(&store, &mission.id, "a");
    let b = task_of(&store, &mission.id, "b");
    assert_eq!(assignments.len(), 1);
    assert_eq!(store.tasks[a].status, TaskStatus::Assigned);
    assert_eq!(store.tasks[b].status, TaskStatus::Queued);
    let a_crab = store.tasks[a].assigned_crab_id.clone().unwrap();
    let other = if a_crab == "k1" { "k2" } else { "k1" };
    let assignments = finish(&mut store, &registry, &mission.id, "a", &a_crab, RunStatus::Completed, "done", 10);
    assert_eq!(assignments.len(), 1);
    assert_eq!(store.tasks[b].status, TaskStatus::Assigned);
    assert!(assignments[0].crab_id == "k1" || assignments[0].crab_id == other);
}

#[test]
fn two_missions_schedule_in_parallel() {
    let mut registry = WorkflowRegistry::new();
    registry.insert(manifest("one", vec![step("a", "any", &[], None, 0)]));
    let mut store = Store::new();
    let colony = colony_with_crabs(&mut store, None, &[("k1", "any"), ("k2", "any")]);
    let (_, first) = store.create_mission(&registry, colony.clone(), "M1".to_string(), Some("one".to_string()), 3).unwrap();
    let (_, second) = store.create_mission(&registry, colony, "M2".to_string(), Some("one".to_string()), 4).unwrap();
    assert_eq!(first.len(), 1);
    assert_eq!(second.len(), 1);
    assert_ne!(first[0].crab_id, second[0].crab_id);
}

#[test]
fn context_map_prefers_latest_completion() {
    let mut registry = WorkflowRegistry::new();
    registry.insert(manifest("w", vec![step("review", "any", &[], None, 0)]));
    let mut store = Store::new();
    let colony = colony_with_crabs(&mut store, None, &[]);
    let (mission, _) = store.create_mission(&registry, colony, "M".to_string(), Some("w".to_string()), 3).unwrap();
    let t = task_of(&store, &mission.id, "review");
    let task_id = store.tasks[t].id.clone();
    let first = store
        .start_run(Some("r1".to_string()), mission.id.clone(), task_id.clone(), "x".to_string(), "b".to_string(), BurrowMode::Worktree, None, None, 5)
        .unwrap();
    store.update_run(&first.id, Some(RunStatus::Blocked), None, None, None, 6).unwrap();
    let second = store
        .start_run(Some("r2".to_string()), mission.id.clone(), task_id.clone(), "y".to_string(), "b".to_string(), BurrowMode::Worktree, None, None, 7)
        .unwrap();
    store.complete_run(&registry, &second.id, RunStatus::Completed, Some("{\"result\":\"PASS\"}".to_string()), None, None, 20).unwrap();
    store.complete_run(&registry, &first.id, RunStatus::Completed, Some("{\"result\":\"FAIL\"}".to_string()), None, None, 30).unwrap();
    let ctx = store.build_context_map(&mission.id);
    assert_eq!(ctx.get("review.result").map(|s| s.as_str()), Some("FAIL"));
    assert_eq!(ctx.get("review.summary").map(|s| s.as_str()), Some("{\"result\":\"FAIL\"}"));
}

#[test]
fn second_running_task_of_a_mission_is_refused() {
    let mut registry = WorkflowRegistry::new();
    registry.insert(manifest("flat", vec![step("a", "any", &[], None, 0), step("b", "any", &[], None, 0)]));
    let mut store = Store::new();
    let colony = colony_with_crabs(&mut store, None, &[]);
    let (mission, _) = store.create_mission(&registry, colony, "M".to_string(), Some("flat".to_string()), 3).unwrap();
    let a = task_of(&store, &mission.id, "a");
    let b = task_of(&store, &mission.id, "b");
    let (a_id, b_id) = (store.tasks[a].id.clone(), store.tasks[b].id.clone());
    store.start_run(None, mission.id.clone(), a_id, "w1".to_string(), "p".to_string(), BurrowMode::Worktree, None, None, 4).unwrap();
    let e = store
        .start_run(None, mission.id.clone(), b_id, "w2".to_string(), "p".to_string(), BurrowMode::Worktree, None, None, 5)
        .unwrap_err();
    assert_eq!(e.kind, ErrorKind::BadRequest);
}

#[test]
fn running_task_holds_back_its_mission() {
    let mut registry = WorkflowRegistry::new();
    registry.insert(manifest("flat", vec![step("a", "any", &[], None, 0), step("b", "any", &[], None, 0)]));
    let mut store = Store::new();
    let colony = colony_with_crabs(&mut store, None, &[]);
    let (mission, _) = store.create_mission(&registry, colony.clone(), "M".to_string(), Some("flat".to_string()), 3).unwrap();
    let a = task_of(&store, &mission.id, "a");
    let b = task_of(&store, &mission.id, "b");
    let a_id = store.tasks[a].id.clone();
    store
        .start_run(None, mission.id.clone(), a_id, "w".to_string(), "p".to_string(), BurrowMode::Worktree, None, None, 4)
        .unwrap();
    let (_, assignments) = store
        .register_crab("k1".to_string(), colony, "k1".to_string(), "any".to_string(), None, 5)
        .unwrap();
    assert!(assignments.is_empty());
    assert_eq!(store.tasks[b].status, TaskStatus::Queued);
}

#[test]
fn unknown_workflow_is_not_found() {
    let registry = WorkflowRegistry::new();
    let mut store = Store::new();
    let colony = colony_with_crabs(&mut store, None, &[]);
    let e = store.create_mission(&registry, colony, "M".to_string(), Some("nope".to_string()), 3).unwrap_err();
    assert_eq!(e.kind, ErrorKind::NotFound);
    assert!(store.missions.is_empty());
    let e = store.create_mission(&registry, "x".to_string(), " ".to_string(), None, 3).unwrap_err();
    assert_eq!(e.kind, ErrorKind::BadRequest);
}

#[test]
fn prompts_are_rendered() {
    let mut registry = dev_task_registry(vec![]);
    registry.set_prompt("implement.md".to_string(), "Do {{mission_prompt}} in {{worktree_path}}{{context}}!".to_string());
    let mut store = Store::new();
    let colony = colony_with_crabs(&mut store, None, &[]);
    let (mission, _) = store.create_mission(&registry, colony, "X".to_string(), Some("dev-task".to_string()), 3).unwrap();
    let t = task_of(&store, &mission.id, "implement");
    let expected = format!("Do X in burrows/mission-{}!", mission.id);
    assert_eq!(store.tasks[t].prompt.as_deref(), Some(expected.as_str()));
    let r = task_of(&store, &mission.id, "review");
    assert_eq!(store.tasks[r].prompt.as_deref(), Some(""));
}

#[test]
fn registry_lists_sorted_names() {
    let mut registry = WorkflowRegistry::new();
    registry.insert(manifest("zeta", vec![]));
    registry.insert(manifest("alpha", vec![]));
    registry.insert(manifest("mid", vec![]));
    registry.insert(manifest("alpha", vec![step("s", "r", &[], None, 0)]));
    assert_eq!(registry.list_names(), vec!["alpha".to_string(), "mid".to_string(), "zeta".to_string()]);
    assert_eq!(registry.get("alpha").unwrap().steps.len(), 1);
    assert!(registry.get("beta").is_none());
}

#[test]
fn unknown_dependency_is_dropped() {
    let mut registry = WorkflowRegistry::new();
    registry.insert(manifest("w", vec![step("a", "coder", &["ghost"], None, 0)]));
    let mut store = Store::new();
    let colony = colony_with_crabs(&mut store, None, &[]);
    let (mission, _) = store.create_mission(&registry, colony, "M".to_string(), Some("w".to_string()), 3).unwrap();
    assert!(store.deps.is_empty());
    let a = task_of(&store, &mission.id, "a");
    assert_eq!(store.tasks[a].status, TaskStatus::Blocked);
}

#[test]
fn conditions() {
    let mut ctx = ContextMap::new();
    ctx.insert("review.result".to_string(), "FAIL".to_string());
    assert!(evaluate_condition("review.result == 'FAIL'", &ctx));
    assert!(evaluate_condition("  review.result==\"FAIL\"  ", &ctx));
    assert!(!evaluate_condition("review.result == 'PASS'", &ctx));
    assert!(!evaluate_condition("other.result == 'FAIL'", &ctx));
    assert!(!evaluate_condition("review.result = 'FAIL'", &ctx));
    assert!(!evaluate_condition("", &ctx));
    assert!(!evaluate_condition("review.result == FAIL", &ctx));
    assert!(!evaluate_condition("review.result == 'FAIL\"", &ctx));
    assert!(!evaluate_condition("review.result == '", &ctx));
    ctx.insert("review.result".to_string(), "PASS".to_string());
    assert!(evaluate_condition("review.result == 'PASS'", &ctx));
    assert_eq!(ctx.get("review.result").map(|s| s.as_str()), Some("PASS"));
}

#[test]
fn unknown_key_skips_dependent() {
    let mut registry = WorkflowRegistry::new();
    registry.insert(manifest(
        "w",
        vec![step("a", "coder", &[], None, 0), step("b", "coder", &["a"], Some("nobody.result == 'x'"), 0)],
    ));
    let mut store = Store::new();
    let colony = colony_with_crabs(&mut store, None, &[("k1", "coder")]);
    let (mission, _) = store.create_mission(&registry, colony, "M".to_string(), Some("w".to_string()), 3).unwrap();
    finish(&mut store, &registry, &mission.id, "a", "k1", RunStatus::Completed, "plain text", 10);
    let b = task_of(&store, &mission.id, "b");
    assert_eq!(store.tasks[b].status, TaskStatus::Skipped);
    let ctx = store.build_context_map(&mission.id);
    assert_eq!(ctx.get("a.summary").map(|s| s.as_str()), Some("plain text"));
    assert!(ctx.get("a.result").is_none());
}

#[test]
fn expansion_with_chosen_ids() {
    let mut registry = WorkflowRegistry::new();
    registry.insert(manifest("w", vec![step("a", "coder", &[], Some("x.result == \"y\""), 3), step("b", "coder", &["a"], None, 0)]));
    let mut store = Store::new();
    let m = registry.get("w").unwrap();
    let e = store
        .expand_workflow_with_ids(&registry, m, "m1", "P", vec!["t1".to_string(), "t1".to_string()], 1)
        .unwrap_err();
    assert_eq!(e.kind, ErrorKind::Internal);
    let e = store.expand_workflow_with_ids(&registry, m, "m1", "P", vec!["t1".to_string()], 1).unwrap_err();
    assert_eq!(e.kind, ErrorKind::Internal);
    assert!(store.tasks.is_empty());
    let ids = store
        .expand_workflow_with_ids(&registry, m, "m1", "P", vec!["t1".to_string(), "t2".to_string()], 1)
        .unwrap();
    assert_eq!(ids, vec!["t1".to_string(), "t2".to_string()]);
    assert_eq!(store.tasks[0].context.as_deref(), Some("{\"_condition\":\"x.result == \\\"y\\\"\",\"_max_retries\":3}"));
    assert_eq!(store.deps.len(), 1);
    assert_eq!(store.deps[0].task_id, "t2");
    assert_eq!(store.deps[0].depends_on_task_id, "t1");
    assert_eq!(store.tasks[1].status, TaskStatus::Blocked);
}

#[test]
fn earliest_queued_task_is_served_first() {
    let mut registry = WorkflowRegistry::new();
    registry.insert(manifest("one", vec![step("a", "any", &[], None, 0)]));
    let mut store = Store::new();
    let colony = colony_with_crabs(&mut store, None, &[]);
    let (m1, _) = store.create_mission(&registry, colony.clone(), "M1".to_string(), Some("one".to_string()), 3).unwrap();
    let (m2, _) = store.create_mission(&registry, colony.clone(), "M2".to_string(), Some("one".to_string()), 4).unwrap();
    let (_, assignments) = store
        .register_crab("k".to_string(), colony, "k".to_string(), "any".to_string(), None, 5)
        .unwrap();
    assert_eq!(assignments.len(), 1);
    assert_eq!(assignments[0].payload.mission_id, m1.id);
    let t2 = task_of(&store, &m2.id, "a");
    assert_eq!(store.tasks[t2].status, TaskStatus::Queued);
}

#[test]
fn failure_spreads_through_failed_tasks() {
    let mut registry = WorkflowRegistry::new();
    registry.insert(manifest(
        "chain",
        vec![step("a", "coder", &[], None, 0), step("b", "coder", &["a"], None, 0), step("c", "coder", &["b"], None, 0)],
    ));
    let mut store = Store::new();
    let colony = colony_with_crabs(&mut store, None, &[]);
    let (mission, _) = store.create_mission(&registry, colony, "M".to_string(), Some("chain".to_string()), 3).unwrap();
    let b = task_of(&store, &mission.id, "b");
    let c = task_of(&store, &mission.id, "c");
    store.tasks[b].status = TaskStatus::Failed;
    let a_id = store.tasks[task_of(&store, &mission.id, "a")].id.clone();
    store.propagate_failure(&a_id, 9);
    assert_eq!(store.tasks[c].status, TaskStatus::Failed);
}

#[test]
fn merge_with_chosen_run_id() {
    let mut registry = WorkflowRegistry::new();
    registry.insert(manifest("ship", vec![step("merge-wait", "any", &[], None, 0)]));
    let mut store = Store::new();
    let colony = colony_with_crabs(&mut store, Some("o/r"), &[]);
    let (mission, _) = store.create_mission(&registry, colony, "M".to_string(), Some("ship".to_string()), 3).unwrap();
    let mw = task_of(&store, &mission.id, "merge-wait");
    let id = store.tasks[mw].id.clone();
    let e = store
        .apply_merge_outcome_with_id(&registry, &id, &mission.id, 5, MergeOutcome::Merged, mission.id.clone(), 4)
        .unwrap_err();
    assert_eq!(e.kind, ErrorKind::Internal);
    assert_eq!(store.tasks[mw].status, TaskStatus::Queued);
    store
        .apply_merge_outcome_with_id(&registry, &id, &mission.id, 5, MergeOutcome::Merged, "run-x".to_string(), 5)
        .unwrap();
    assert_eq!(store.runs.last().unwrap().id, "run-x");
    assert_eq!(store.tasks[mw].status, TaskStatus::Completed);
    assert_eq!(store.missions[0].status, MissionStatus::Completed);
}

#[test]
fn queue_with_chosen_ids_and_order() {
    let mut registry = WorkflowRegistry::new();
    registry.insert(manifest("dev-task", vec![step("implement", "coder", &[], None, 0)]));
    let mut store = Store::new();
    let colony = colony_with_crabs(&mut store, Some("o/r"), &[]);
    let e = store
        .queue_issue_with_ids(&registry, "q1".to_string(), vec![], &colony, 1, None, "T", "B", 5)
        .unwrap_err();
    assert_eq!(e.kind, ErrorKind::Internal);
    assert!(store.missions.is_empty());
    let (m, _) = store
        .queue_issue_with_ids(&registry, "q1".to_string(), vec!["t1".to_string()], &colony, 1, None, "T", "B", 5)
        .unwrap();
    assert_eq!(m.id, "q1");
    assert_eq!(store.tasks[0].id, "t1");
    let (_, _) = store
        .queue_issue_with_ids(&registry, "q2".to_string(), vec![], &colony, 2, None, "T", "B", 6)
        .unwrap();
    let order = store.queue_of(&colony);
    assert_eq!(order.len(), 2);
    assert_eq!(store.missions[order[0]].id, "q1");
    assert_eq!(store.missions[order[1]].id, "q2");
}

#[test]
fn update_run_does_not_finish_runs() {
    let registry = WorkflowRegistry::new();
    let mut store = Store::new();
    let colony = colony_with_crabs(&mut store, None, &[]);
    let (mission, _) = store.create_mission(&registry, colony, "M".to_string(), None, 3).unwrap();
    let (task, _) = store.create_task(mission.id.clone(), "t".to_string(), None, None, 4).unwrap();
    let run = store
        .start_run(None, mission.id.clone(), task.id.clone(), "w".to_string(), "p".to_string(), BurrowMode::Worktree, None, None, 5)
        .unwrap();
    let e = store.update_run(&run.id, Some(RunStatus::Completed), None, None, None, 6).unwrap_err();
    assert_eq!(e.kind, ErrorKind::BadRequest);
    assert_eq!(store.runs[0].status, RunStatus::Running);
}

use crabitat::ids::{ColonyId, MissionId};
use crabitat::metrics::{merge_metrics, RunMetrics, TimingPatch, TokenUsagePatch};
use crabitat::model::ErrorKind;
use crabitat::status::{BurrowMode, CrabState, RunStatus, TaskStatus};
use crabitat::store::Store;
use crabitat::workflow::WorkflowRegistry;

fn setup_colony(store: &mut Store) -> String {
    store
        .create_colony("test-colony".to_string(), None, None, 1)
        .unwrap()
        .id
}

fn register(store: &mut Store, crab: &str, colony: &str, name: &str, role: &str) {
    store
        .register_crab(crab.to_string(), colony.to_string(), name.to_string(), role.to_string(), None, 2)
        .unwrap();
}

#[test]
fn hello_world() {
    assert_eq!(1 + 1, 2);
}

#[test]
fn colony_id_is_unique() {
    let a = ColonyId::new();
    let b = ColonyId::new();
    assert_ne!(a, b);
}

#[test]
fn mission_id_is_unique() {
    let a = MissionId::new();
    let b = MissionId::new();
    assert_ne!(a, b);
}

#[test]
fn register_and_list_crabs() {
    let mut store = Store::new();
    let colony = setup_colony(&mut store);
    let (crab, assignments) = store
        .register_crab("crab-1".to_string(), colony.clone(), "Alice".to_string(), "coder".to_string(), None, 5)
        .unwrap();
    assert_eq!(crab.crab_id, "crab-1");
    assert_eq!(crab.name, "Alice");
    assert_eq!(crab.colony_id, colony);
    assert!(matches!(crab.state, CrabState::Idle));
    assert!(assignments.is_empty());
    assert_eq!(store.crabs.len(), 1);
}

#[test]
fn create_mission_and_task() {
    let mut store = Store::new();
    let registry = WorkflowRegistry::new();
    let colony = setup_colony(&mut store);
    let (mission, _) = store
        .create_mission(&registry, colony.clone(), "Implement feature X".to_string(), None, 3)
        .unwrap();
    assert!(!mission.id.is_empty());
    assert_eq!(mission.colony_id, colony);
    register(&mut store, "crab-1", &colony, "Alice", "coder");
    let (task, assignment) = store
        .create_task(mission.id.clone(), "Write tests".to_string(), Some("crab-1".to_string()), None, 4)
        .unwrap();
    assert_eq!(task.title, "Write tests");
    assert_eq!(task.assigned_crab_id.as_deref(), Some("crab-1"));
    let assignment = assignment.unwrap();
    assert_eq!(assignment.crab_id, "crab-1");
    assert_eq!(assignment.payload.mission_prompt, "Implement feature X");
    assert_eq!(store.crabs[0].state, CrabState::Busy);
    assert_eq!(store.crabs[0].current_task_id.as_deref(), Some(task.id.as_str()));
}

#[test]
fn full_run_lifecycle() {
    let mut store = Store::new();
    let registry = WorkflowRegistry::new();
    let colony = setup_colony(&mut store);
    register(&mut store, "crab-1", &colony, "Alice", "coder");
    let (mission, _) = store
        .create_mission(&registry, colony.clone(), "Build feature".to_string(), None, 3)
        .unwrap();
    let (task, _) = store
        .create_task(mission.id.clone(), "Implement it".to_string(), None, None, 4)
        .unwrap();
    let run = store
        .start_run(
            None,
            mission.id.clone(),
            task.id.clone(),
            "crab-1".to_string(),
            "/tmp/burrow-1".to_string(),
            BurrowMode::Worktree,
            None,
            None,
            5,
        )
        .unwrap();
    assert!(matches!(run.status, RunStatus::Running));
    assert_eq!(run.progress_message, "run started");

    let updated = store
        .update_run(
            &run.id,
            None,
            Some("halfway there".to_string()),
            Some(TokenUsagePatch { prompt_tokens: Some(100), completion_tokens: Some(50), total_tokens: None }),
            Some(TimingPatch {
                first_token_ms: Some(200),
                llm_duration_ms: None,
                execution_duration_ms: None,
                end_to_end_ms: None,
            }),
            6,
        )
        .unwrap();
    assert_eq!(updated.progress_message, "halfway there");
    assert_eq!(updated.metrics.prompt_tokens, 100);
    assert_eq!(updated.metrics.completion_tokens, 50);
    assert_eq!(updated.metrics.total_tokens, 150);

    let (completed, _) = store
        .complete_run(
            &registry,
            &run.id,
            RunStatus::Completed,
            Some("All done".to_string()),
            Some(TokenUsagePatch { prompt_tokens: Some(200), completion_tokens: Some(100), total_tokens: None }),
            Some(TimingPatch {
                first_token_ms: None,
                llm_duration_ms: Some(1500),
                execution_duration_ms: Some(3000),
                end_to_end_ms: Some(5000),
            }),
            7,
        )
        .unwrap();
    assert!(matches!(completed.status, RunStatus::Completed));
    assert_eq!(completed.summary.as_deref(), Some("All done"));
    assert!(completed.completed_at_ms.is_some());
    assert_eq!(completed.metrics.total_tokens, 300);
    assert_eq!(store.tasks[0].status, TaskStatus::Completed);
    assert_eq!(store.crabs[0].state, CrabState::Idle);
}

#[test]
fn status_snapshot_totals() {
    let mut store = Store::new();
    let registry = WorkflowRegistry::new();
    let colony = setup_colony(&mut store);
    register(&mut store, "crab-1", &colony, "Alice", "coder");
    register(&mut store, "crab-2", &colony, "Bob", "tester");
    let (mission, _) = store
        .create_mission(&registry, colony.clone(), "Test mission".to_string(), None, 3)
        .unwrap();
    let (task, _) = store.create_task(mission.id.clone(), "Test task".to_string(), None, None, 4).unwrap();
    let run = store
        .start_run(
            None,
            mission.id.clone(),
            task.id.clone(),
            "crab-1".to_string(),
            "/tmp/b1".to_string(),
            BurrowMode::Worktree,
            None,
            None,
            5,
        )
        .unwrap();
    store
        .complete_run(
            &registry,
            &run.id,
            RunStatus::Completed,
            Some("done".to_string()),
            Some(TokenUsagePatch { prompt_tokens: Some(500), completion_tokens: Some(300), total_tokens: None }),
            Some(TimingPatch {
                first_token_ms: None,
                llm_duration_ms: None,
                execution_duration_ms: None,
                end_to_end_ms: Some(4000),
            }),
            6,
        )
        .unwrap();
    let summary = store.status_summary();
    assert_eq!(summary.total_crabs, 2);
    assert_eq!(summary.busy_crabs, 0);
    assert_eq!(summary.completed_runs, 1);
    assert_eq!(summary.failed_runs, 0);
    assert_eq!(summary.total_tokens, 800);
    assert_eq!(summary.avg_end_to_end_ms, Some(4000));
    assert_eq!(store.colonies.len(), 1);
}

#[test]
fn get_mission_by_id() {
    let mut store = Store::new();
    let registry = WorkflowRegistry::new();
    let colony = setup_colony(&mut store);
    let (mission, _) = store
        .create_mission(&registry, colony.clone(), "Implement feature Y".to_string(), None, 3)
        .unwrap();
    let i = store.find_mission(&mission.id).unwrap();
    let fetched = &store.missions[i];
    assert_eq!(fetched.id, mission.id);
    assert_eq!(fetched.colony_id, colony);
    assert_eq!(fetched.prompt, "Implement feature Y");
}

#[test]
fn get_mission_not_found() {
    let store = Store::new();
    assert!(store.find_mission("00000000-0000-0000-0000-000000000000").is_none());
}

#[test]
fn create_colony_requires_name_and_valid_repo() {
    let mut store = Store::new();
    let e = store.create_colony("   ".to_string(), None, None, 1).unwrap_err();
    assert_eq!(e.kind, ErrorKind::BadRequest);
    let e = store.create_colony("c".to_string(), None, Some("a/b/c".to_string()), 1).unwrap_err();
    assert_eq!(e.kind, ErrorKind::BadRequest);
    let c = store.create_colony("c".to_string(), Some("d".to_string()), Some("me/repo".to_string()), 1).unwrap();
    assert_eq!(c.repo.as_deref(), Some("me/repo"));
    assert_eq!(c.description, "d");
    assert_eq!(store.colonies.len(), 1);
}

#[test]
fn update_colony_keeps_absent_fields() {
    let mut store = Store::new();
    let colony = setup_colony(&mut store);
    let c = store.update_colony(&colony, Some("o/r".to_string()), None, None).unwrap();
    assert_eq!(c.name, "test-colony");
    assert_eq!(c.repo.as_deref(), Some("o/r"));
    let e = store.update_colony(&colony, Some("bad".to_string()), None, None).unwrap_err();
    assert_eq!(e.kind, ErrorKind::BadRequest);
    let e = store.update_colony("nope", None, None, None).unwrap_err();
    assert_eq!(e.kind, ErrorKind::NotFound);
}

#[test]
fn role_is_held_by_one_crab_per_colony() {
    let mut store = Store::new();
    let colony = setup_colony(&mut store);
    register(&mut store, "k1", &colony, "One", "coder");
    let e = store
        .register_crab("k2".to_string(), colony.clone(), "Two".to_string(), "coder".to_string(), None, 3)
        .unwrap_err();
    assert_eq!(e.kind, ErrorKind::BadRequest);
    register(&mut store, "k3", &colony, "Three", "any");
    register(&mut store, "k4", &colony, "Four", "any");
    assert_eq!(store.crabs.len(), 3);
}

#[test]
fn register_requires_fields_and_colony() {
    let mut store = Store::new();
    let e = store
        .register_crab("k".to_string(), "nowhere".to_string(), "N".to_string(), "coder".to_string(), None, 1)
        .unwrap_err();
    assert_eq!(e.kind, ErrorKind::NotFound);
    let e = store
        .register_crab(" ".to_string(), "nowhere".to_string(), "N".to_string(), "coder".to_string(), None, 1)
        .unwrap_err();
    assert_eq!(e.kind, ErrorKind::BadRequest);
}

#[test]
fn reregistration_keeps_id_and_colony() {
    let mut store = Store::new();
    let first = setup_colony(&mut store);
    let second = store.create_colony("other".to_string(), None, None, 1).unwrap().id;
    register(&mut store, "k1", &first, "One", "coder");
    let (crab, _) = store
        .register_crab("k1".to_string(), second.clone(), "Renamed".to_string(), "tester".to_string(), Some(CrabState::Offline), 9)
        .unwrap();
    assert_eq!(crab.crab_id, "k1");
    assert_eq!(crab.colony_id, first);
    assert_eq!(crab.name, "Renamed");
    assert_eq!(crab.role, "tester");
    assert_eq!(crab.state, CrabState::Offline);
    assert_eq!(store.crabs.len(), 1);
}

#[test]
fn completing_twice_is_refused() {
    let mut store = Store::new();
    let registry = WorkflowRegistry::new();
    let colony = setup_colony(&mut store);
    let (mission, _) = store.create_mission(&registry, colony, "m".to_string(), None, 3).unwrap();
    let (task, _) = store.create_task(mission.id.clone(), "t".to_string(), None, None, 4).unwrap();
    let run = store
        .start_run(Some("run-1".to_string()), mission.id.clone(), task.id.clone(), "k".to_string(), "p".to_string(), BurrowMode::ExternalRepo, None, None, 5)
        .unwrap();
    assert_eq!(run.id, "run-1");
    let (done, _) = store
        .complete_run(&registry, "run-1", RunStatus::Completed, Some("S".to_string()), None, None, 6)
        .unwrap();
    assert_eq!(done.summary.as_deref(), Some("S"));
    let i = store.find_run("run-1").unwrap();
    assert_eq!(store.runs[i].summary.as_deref(), Some("S"));
    let e = store
        .complete_run(&registry, "run-1", RunStatus::Completed, Some("T".to_string()), None, None, 7)
        .unwrap_err();
    assert_eq!(e.kind, ErrorKind::BadRequest);
    assert_eq!(store.runs[i].summary.as_deref(), Some("S"));
    let e = store
        .complete_run(&registry, "run-1", RunStatus::Running, None, None, None, 7)
        .unwrap_err();
    assert_eq!(e.kind, ErrorKind::BadRequest);
    let e = store
        .complete_run(&registry, "missing", RunStatus::Failed, None, None, None, 7)
        .unwrap_err();
    assert_eq!(e.kind, ErrorKind::NotFound);
}

#[test]
fn start_run_errors() {
    let mut store = Store::new();
    let e = store
        .start_run(None, "m".to_string(), "t".to_string(), "k".to_string(), " ".to_string(), BurrowMode::Worktree, None, None, 1)
        .unwrap_err();
    assert_eq!(e.kind, ErrorKind::BadRequest);
    let e = store
        .start_run(None, "m".to_string(), "t".to_string(), "k".to_string(), "p".to_string(), BurrowMode::Worktree, None, None, 1)
        .unwrap_err();
    assert_eq!(e.kind, ErrorKind::NotFound);
    let e = store.update_run("r", None, None, None, None, 1).unwrap_err();
    assert_eq!(e.kind, ErrorKind::NotFound);
}

#[test]
fn create_task_errors() {
    let mut store = Store::new();
    let e = store.create_task("m".to_string(), "".to_string(), None, None, 1).unwrap_err();
    assert_eq!(e.kind, ErrorKind::BadRequest);
    let e = store.create_task("m".to_string(), "t".to_string(), None, None, 1).unwrap_err();
    assert_eq!(e.kind, ErrorKind::NotFound);
}

#[test]
fn merge_metrics_total_rules() {
    let base = RunMetrics::default();
    let m = merge_metrics(
        base,
        Some(TokenUsagePatch { prompt_tokens: Some(u32::MAX), completion_tokens: Some(5), total_tokens: None }),
        None,
    );
    assert_eq!(m.total_tokens, u32::MAX);
    let m = merge_metrics(
        m,
        Some(TokenUsagePatch { prompt_tokens: Some(1), completion_tokens: Some(2), total_tokens: Some(10) }),
        None,
    );
    assert_eq!(m.total_tokens, 10);
    let m2 = merge_metrics(m, None, Some(TimingPatch { first_token_ms: None, llm_duration_ms: Some(9), execution_duration_ms: None, end_to_end_ms: None }));
    assert_eq!(m2.total_tokens, 10);
    assert_eq!(m2.llm_duration_ms, Some(9));
    assert_eq!(m2.prompt_tokens, 1);
}

#[test]
fn chosen_ids_are_checked() {
    let mut store = Store::new();
    let registry = WorkflowRegistry::new();
    let c = store.create_colony_with_id("col-1".to_string(), "c".to_string(), None, None, 1).unwrap();
    assert_eq!(c.id, "col-1");
    let e = store.create_colony_with_id("col-1".to_string(), "d".to_string(), None, None, 1).unwrap_err();
    assert_eq!(e.kind, ErrorKind::Internal);
    let e = store.create_colony_with_id("col-2".to_string(), " ".to_string(), None, None, 1).unwrap_err();
    assert_eq!(e.kind, ErrorKind::BadRequest);
    let (mission, _) = store.create_mission(&registry, "col-1".to_string(), "m".to_string(), None, 2).unwrap();
    let (t, _) = store.create_task_with_id("task-1".to_string(), mission.id.clone(), "t".to_string(), None, None, 3).unwrap();
    assert_eq!(t.id, "task-1");
    let e = store.create_task_with_id("task-1".to_string(), mission.id.clone(), "t".to_string(), None, None, 3).unwrap_err();
    assert_eq!(e.kind, ErrorKind::Internal);
    let e = store.create_task_with_id("col-1".to_string(), mission.id.clone(), "t".to_string(), None, None, 3).unwrap_err();
    assert_eq!(e.kind, ErrorKind::Internal);
    assert_eq!(store.tasks.len(), 1);
}

#[test]
fn update_colony_rejects_half_repos() {
    let mut store = Store::new();
    let colony = setup_colony(&mut store);
    let e = store.update_colony(&colony, Some("owner/".to_string()), None, None).unwrap_err();
    assert_eq!(e.kind, ErrorKind::BadRequest);
    let e = store.update_colony(&colony, Some("/name".to_string()), None, None).unwrap_err();
    assert_eq!(e.kind, ErrorKind::BadRequest);
}

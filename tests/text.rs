use crabitat::agent::{extract_param, Agent, ProjectManagementVendor};
use crabitat::decimal::{format_i64, format_u64, parse_i64};
use crabitat::model::ErrorKind;
use crabitat::snapshot::parse_repo;
use crabitat::status::{
    burrow_mode_from_db, burrow_mode_to_db, mission_status_from_db, mission_status_to_db, run_status_from_db,
    run_status_to_db, task_status_from_db, task_status_to_db, BurrowMode, CrabState, MissionStatus, RunStatus,
    TaskStatus,
};
use crabitat::text::{count_char, repo_is_valid, trim, trim_matches};

#[test]
fn storage_names_round_trip() {
    for s in [
        TaskStatus::Queued,
        TaskStatus::Assigned,
        TaskStatus::Running,
        TaskStatus::Blocked,
        TaskStatus::Completed,
        TaskStatus::Failed,
        TaskStatus::Skipped,
    ] {
        assert_eq!(task_status_from_db(task_status_to_db(s)), s);
    }
    for s in [MissionStatus::Pending, MissionStatus::Running, MissionStatus::Completed, MissionStatus::Failed] {
        assert_eq!(mission_status_from_db(mission_status_to_db(s)), s);
    }
    for s in [RunStatus::Queued, RunStatus::Running, RunStatus::Blocked, RunStatus::Completed, RunStatus::Failed] {
        assert_eq!(run_status_from_db(run_status_to_db(s)), s);
    }
    assert_eq!(burrow_mode_to_db(BurrowMode::ExternalRepo), "external_repo");
    assert_eq!(burrow_mode_from_db("external_repo"), BurrowMode::ExternalRepo);
    assert_eq!(CrabState::from_str(CrabState::Busy.as_str()), CrabState::Busy);
    assert_eq!(CrabState::Offline.as_str(), "offline");
}

#[test]
fn unknown_storage_names_read_as_defaults() {
    assert_eq!(task_status_from_db("weird"), TaskStatus::Queued);
    assert_eq!(mission_status_from_db("weird"), MissionStatus::Pending);
    assert_eq!(run_status_from_db("weird"), RunStatus::Queued);
    assert_eq!(burrow_mode_from_db("weird"), BurrowMode::Worktree);
    assert_eq!(CrabState::from_str("weird"), CrabState::Idle);
}

#[test]
fn integers_as_text() {
    assert_eq!(parse_i64("42"), Some(42));
    assert_eq!(parse_i64("-17"), Some(-17));
    assert_eq!(parse_i64("+5"), Some(5));
    assert_eq!(parse_i64("9223372036854775807"), Some(i64::MAX));
    assert_eq!(parse_i64("-9223372036854775808"), Some(i64::MIN));
    assert_eq!(parse_i64("9223372036854775808"), None);
    assert_eq!(parse_i64(""), None);
    assert_eq!(parse_i64("-"), None);
    assert_eq!(parse_i64("4 2"), None);
    assert_eq!(format_u64(0), "0");
    assert_eq!(format_u64(1203), "1203");
    assert_eq!(format_i64(-42), "-42");
    assert_eq!(format_i64(i64::MIN), "-9223372036854775808");
}

#[test]
fn repos() {
    let (owner, name) = parse_repo("octo/cat").unwrap();
    assert_eq!(owner, "octo");
    assert_eq!(name, "cat");
    let (owner, name) = parse_repo("a/b/c").unwrap();
    assert_eq!(owner, "a");
    assert_eq!(name, "b/c");
    assert_eq!(parse_repo("nope").unwrap_err().kind, ErrorKind::BadRequest);
    assert!(repo_is_valid("a/b"));
    assert!(repo_is_valid(""));
    assert!(!repo_is_valid("ab"));
    assert!(!repo_is_valid("a/b/c"));
    assert!(!repo_is_valid("a/"));
    assert!(!repo_is_valid("/b"));
    assert_eq!(count_char("a/b/c", '/'), 2);
}

#[test]
fn trimming() {
    assert_eq!(trim("  x y \t\n"), "x y");
    assert_eq!(trim("\u{3000}x\u{a0}"), "x");
    assert_eq!(trim("   "), "");
    assert_eq!(trim_matches("''x''", '\''), "x");
    assert_eq!(trim_matches("''''", '\''), "");
}

#[test]
fn agents() {
    let agent = Agent {
        id: "a1".to_string(),
        name: "Ann".to_string(),
        role: "coder".to_string(),
        persona: "calm".to_string(),
        model: "gemma3:latest".to_string(),
        tools: vec!["grep".to_string(), "edit".to_string()],
    };
    assert!(agent.has_tool("edit"));
    assert!(!agent.has_tool("rm"));
    assert_eq!(agent.model_name(), "gemma3:latest");
    assert_eq!(ProjectManagementVendor::default(), ProjectManagementVendor::Noop);
}

#[test]
fn model_parameters() {
    let params = "temperature 0.8\ntop_k 40\n  top_p   0.9\r\nstop\n";
    assert_eq!(extract_param(params, "temperature").as_deref(), Some("0.8"));
    assert_eq!(extract_param(params, "top_k").as_deref(), Some("40"));
    assert_eq!(extract_param(params, "top_p").as_deref(), Some("0.9"));
    assert_eq!(extract_param(params, "stop"), None);
    assert_eq!(extract_param(params, "seed"), None);
    assert_eq!(extract_param("", "seed"), None);
}

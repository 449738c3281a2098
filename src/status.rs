//! Status enums of the data model and their lowercase storage names.

use vstd::prelude::*;
use crate::text::text_eq;

verus! {

/// Lifecycle of a task.
#[derive(Debug, Clone, Copy, PartialEq, Eq, Structural)]
pub enum TaskStatus {
    Queued,
    Assigned,
    Running,
    Blocked,
    Completed,
    Failed,
    Skipped,
}

/// Lifecycle of a mission.
#[derive(Debug, Clone, Copy, PartialEq, Eq, Structural)]
pub enum MissionStatus {
    Pending,
    Running,
    Completed,
    Failed,
}

/// Lifecycle of a run.
#[derive(Debug, Clone, Copy, PartialEq, Eq, Structural)]
pub enum RunStatus {
    Queued,
    Running,
    Blocked,
    Completed,
    Failed,
}

/// How a run's working directory was prepared.
#[derive(Debug, Clone, Copy, PartialEq, Eq, Structural)]
pub enum BurrowMode {
    Worktree,
    ExternalRepo,
}

/// Role of a participant in a colony.
#[derive(Debug, Clone, Copy, PartialEq, Eq, Structural)]
pub enum ColonyRole {
    Chief,
    Crab,
}

/// Availability of a worker.
#[derive(Debug, Clone, Copy, PartialEq, Eq, Structural)]
pub enum CrabState {
    Idle,
    Busy,
    Offline,
}

pub open spec fn task_status_text(s: TaskStatus) -> Seq<char> {
    match s {
        TaskStatus::Queued => "queued"@,
        TaskStatus::Assigned => "assigned"@,
        TaskStatus::Running => "running"@,
        TaskStatus::Blocked => "blocked"@,
        TaskStatus::Completed => "completed"@,
        TaskStatus::Failed => "failed"@,
        TaskStatus::Skipped => "skipped"@,
    }
}

pub fn task_status_to_db(s: TaskStatus) -> (r: &'static str)
    ensures
        r@ == task_status_text(s),
{
    match s {
        TaskStatus::Queued => "queued",
        TaskStatus::Assigned => "assigned",
        TaskStatus::Running => "running",
        TaskStatus::Blocked => "blocked",
        TaskStatus::Completed => "completed",
        TaskStatus::Failed => "failed",
        TaskStatus::Skipped => "skipped",
    }
}

/// The status a stored name reads back as: unknown names read as `Queued`.
pub open spec fn task_status_of_text(t: Seq<char>) -> TaskStatus {
    if t == "assigned"@ {
        TaskStatus::Assigned
    } else if t == "running"@ {
        TaskStatus::Running
    } else if t == "blocked"@ {
        TaskStatus::Blocked
    } else if t == "completed"@ {
        TaskStatus::Completed
    } else if t == "failed"@ {
        TaskStatus::Failed
    } else if t == "skipped"@ {
        TaskStatus::Skipped
    } else {
        TaskStatus::Queued
    }
}

pub fn task_status_from_db(raw: &str) -> (r: TaskStatus)
    ensures
        r == task_status_of_text(raw@),
{
    if text_eq(raw, "assigned") {
        TaskStatus::Assigned
    } else if text_eq(raw, "running") {
        TaskStatus::Running
    } else if text_eq(raw, "blocked") {
        TaskStatus::Blocked
    } else if text_eq(raw, "completed") {
        TaskStatus::Completed
    } else if text_eq(raw, "failed") {
        TaskStatus::Failed
    } else if text_eq(raw, "skipped") {
        TaskStatus::Skipped
    } else {
        TaskStatus::Queued
    }
}

pub open spec fn mission_status_text(s: MissionStatus) -> Seq<char> {
    match s {
        MissionStatus::Pending => "pending"@,
        MissionStatus::Running => "running"@,
        MissionStatus::Completed => "completed"@,
        MissionStatus::Failed => "failed"@,
    }
}

pub fn mission_status_to_db(s: MissionStatus) -> (r: &'static str)
    ensures
        r@ == mission_status_text(s),
{
    match s {
        MissionStatus::Pending => "pending",
        MissionStatus::Running => "running",
        MissionStatus::Completed => "completed",
        MissionStatus::Failed => "failed",
    }
}

/// Unknown names read as `Pending`.
pub open spec fn mission_status_of_text(t: Seq<char>) -> MissionStatus {
    if t == "running"@ {
        MissionStatus::Running
    } else if t == "completed"@ {
        MissionStatus::Completed
    } else if t == "failed"@ {
        MissionStatus::Failed
    } else {
        MissionStatus::Pending
    }
}

pub fn mission_status_from_db(raw: &str) -> (r: MissionStatus)
    ensures
        r == mission_status_of_text(raw@),
{
    if text_eq(raw, "running") {
        MissionStatus::Running
    } else if text_eq(raw, "completed") {
        MissionStatus::Completed
    } else if text_eq(raw, "failed") {
        MissionStatus::Failed
    } else {
        MissionStatus::Pending
    }
}

pub open spec fn run_status_text(s: RunStatus) -> Seq<char> {
    match s {
        RunStatus::Queued => "queued"@,
        RunStatus::Running => "running"@,
        RunStatus::Blocked => "blocked"@,
        RunStatus::Completed => "completed"@,
        RunStatus::Failed => "failed"@,
    }
}

pub fn run_status_to_db(s: RunStatus) -> (r: &'static str)
    ensures
        r@ == run_status_text(s),
{
    match s {
        RunStatus::Queued => "queued",
        RunStatus::Running => "running",
        RunStatus::Blocked => "blocked",
        RunStatus::Completed => "completed",
        RunStatus::Failed => "failed",
    }
}

/// Unknown names read as `Queued`.
pub open spec fn run_status_of_text(t: Seq<char>) -> RunStatus {
    if t == "running"@ {
        RunStatus::Running
    } else if t == "blocked"@ {
        RunStatus::Blocked
    } else if t == "completed"@ {
        RunStatus::Completed
    } else if t == "failed"@ {
        RunStatus::Failed
    } else {
        RunStatus::Queued
    }
}

pub fn run_status_from_db(raw: &str) -> (r: RunStatus)
    ensures
        r == run_status_of_text(raw@),
{
    if text_eq(raw, "running") {
        RunStatus::Running
    } else if text_eq(raw, "blocked") {
        RunStatus::Blocked
    } else if text_eq(raw, "completed") {
        RunStatus::Completed
    } else if text_eq(raw, "failed") {
        RunStatus::Failed
    } else {
        RunStatus::Queued
    }
}

pub open spec fn burrow_mode_text(m: BurrowMode) -> Seq<char> {
    match m {
        BurrowMode::Worktree => "worktree"@,
        BurrowMode::ExternalRepo => "external_repo"@,
    }
}

pub fn burrow_mode_to_db(m: BurrowMode) -> (r: &'static str)
    ensures
        r@ == burrow_mode_text(m),
{
    match m {
        BurrowMode::Worktree => "worktree",
        BurrowMode::ExternalRepo => "external_repo",
    }
}

/// Unknown names read as `Worktree`.
pub open spec fn burrow_mode_of_text(t: Seq<char>) -> BurrowMode {
    if t == "external_repo"@ {
        BurrowMode::ExternalRepo
    } else {
        BurrowMode::Worktree
    }
}

pub fn burrow_mode_from_db(raw: &str) -> (r: BurrowMode)
    ensures
        r == burrow_mode_of_text(raw@),
{
    if text_eq(raw, "external_repo") {
        BurrowMode::ExternalRepo
    } else {
        BurrowMode::Worktree
    }
}

pub open spec fn crab_state_text(s: CrabState) -> Seq<char> {
    match s {
        CrabState::Idle => "idle"@,
        CrabState::Busy => "busy"@,
        CrabState::Offline => "offline"@,
    }
}

/// Unknown names read as `Idle`.
pub open spec fn crab_state_of_text(t: Seq<char>) -> CrabState {
    if t == "busy"@ {
        CrabState::Busy
    } else if t == "offline"@ {
        CrabState::Offline
    } else {
        CrabState::Idle
    }
}

impl CrabState {
    pub fn as_str(self) -> (r: &'static str)
        ensures
            r@ == crab_state_text(self),
    {
        match self {
            CrabState::Idle => "idle",
            CrabState::Busy => "busy",
            CrabState::Offline => "offline",
        }
    }

    pub fn from_str(raw: &str) -> (r: CrabState)
        ensures
            r == crab_state_of_text(raw@),
    {
        if text_eq(raw, "busy") {
            CrabState::Busy
        } else if text_eq(raw, "offline") {
            CrabState::Offline
        } else {
            CrabState::Idle
        }
    }
}

/// Completed, failed and skipped tasks never change status again.
pub open spec fn task_is_terminal(s: TaskStatus) -> bool {
    s == TaskStatus::Completed || s == TaskStatus::Failed || s == TaskStatus::Skipped
}

/// A dependency in one of these statuses no longer holds its dependents back.
pub open spec fn task_is_resolved(s: TaskStatus) -> bool {
    s == TaskStatus::Completed || s == TaskStatus::Skipped
}

pub open spec fn mission_is_terminal(s: MissionStatus) -> bool {
    s == MissionStatus::Completed || s == MissionStatus::Failed
}

} // verus!

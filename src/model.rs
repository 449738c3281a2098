//! Records of the store: colonies, crabs, missions, tasks, dependency edges
//! and runs. Cross-references are ids, never pointers.

use vstd::prelude::*;
use crate::metrics::RunMetrics;
use crate::status::{BurrowMode, CrabState, MissionStatus, RunStatus, TaskStatus};

verus! {

pub fn clone_text(s: &Option<String>) -> (r: Option<String>)
    ensures
        r == *s,
{
    match s {
        Some(t) => Some(t.clone()),
        None => None,
    }
}

/// A worker group bound to one code repository.
#[derive(Debug)]
pub struct Colony {
    pub id: String,
    pub name: String,
    pub description: String,
    /// `owner/name` of the bound repository, if any.
    pub repo: Option<String>,
    pub created_at_ms: u64,
}

impl Clone for Colony {
    fn clone(&self) -> (r: Self)
        ensures
            r == *self,
    {
        Colony {
            id: self.id.clone(),
            name: self.name.clone(),
            description: self.description.clone(),
            repo: clone_text(&self.repo),
            created_at_ms: self.created_at_ms,
        }
    }
}

/// A worker agent registered in a colony.
#[derive(Debug)]
pub struct Crab {
    pub crab_id: String,
    pub colony_id: String,
    pub name: String,
    pub role: String,
    pub state: CrabState,
    pub current_task_id: Option<String>,
    pub current_run_id: Option<String>,
    pub updated_at_ms: u64,
}

impl Clone for Crab {
    fn clone(&self) -> (r: Self)
        ensures
            r == *self,
    {
        Crab {
            crab_id: self.crab_id.clone(),
            colony_id: self.colony_id.clone(),
            name: self.name.clone(),
            role: self.role.clone(),
            state: self.state,
            current_task_id: clone_text(&self.current_task_id),
            current_run_id: clone_text(&self.current_run_id),
            updated_at_ms: self.updated_at_ms,
        }
    }
}

/// A high-level goal within a colony.
#[derive(Debug)]
pub struct Mission {
    pub id: String,
    pub colony_id: String,
    pub prompt: String,
    pub workflow_name: Option<String>,
    pub status: MissionStatus,
    pub worktree_path: Option<String>,
    /// Place in the colony's sequential queue; `None` outside the queue.
    pub queue_position: Option<i64>,
    pub github_issue_number: Option<i64>,
    pub github_pr_number: Option<i64>,
    pub created_at_ms: u64,
}

impl Clone for Mission {
    fn clone(&self) -> (r: Self)
        ensures
            r == *self,
    {
        Mission {
            id: self.id.clone(),
            colony_id: self.colony_id.clone(),
            prompt: self.prompt.clone(),
            workflow_name: clone_text(&self.workflow_name),
            status: self.status,
            worktree_path: clone_text(&self.worktree_path),
            queue_position: self.queue_position,
            github_issue_number: self.github_issue_number,
            github_pr_number: self.github_pr_number,
            created_at_ms: self.created_at_ms,
        }
    }
}

/// One node of a mission's workflow, or an ad-hoc task when `step_id` is `None`.
#[derive(Debug)]
pub struct Task {
    pub id: String,
    pub mission_id: String,
    pub title: String,
    pub assigned_crab_id: Option<String>,
    pub status: TaskStatus,
    pub step_id: Option<String>,
    pub role: Option<String>,
    pub prompt: Option<String>,
    pub context: Option<String>,
    pub created_at_ms: u64,
    pub updated_at_ms: u64,
}

impl Clone for Task {
    fn clone(&self) -> (r: Self)
        ensures
            r == *self,
    {
        Task {
            id: self.id.clone(),
            mission_id: self.mission_id.clone(),
            title: self.title.clone(),
            assigned_crab_id: clone_text(&self.assigned_crab_id),
            status: self.status,
            step_id: clone_text(&self.step_id),
            role: clone_text(&self.role),
            prompt: clone_text(&self.prompt),
            context: clone_text(&self.context),
            created_at_ms: self.created_at_ms,
            updated_at_ms: self.updated_at_ms,
        }
    }
}

/// Edge: task `task_id` waits for task `depends_on_task_id`.
#[derive(Debug, Clone)]
pub struct TaskDep {
    pub task_id: String,
    pub depends_on_task_id: String,
}

/// Where a run works.
#[derive(Debug)]
pub struct Burrow {
    pub path: String,
    pub mode: BurrowMode,
    pub base_branch: Option<String>,
}

impl Clone for Burrow {
    fn clone(&self) -> (r: Self)
        ensures
            r == *self,
    {
        Burrow { path: self.path.clone(), mode: self.mode, base_branch: clone_text(&self.base_branch) }
    }
}

/// One attempt by a worker to complete a task.
#[derive(Debug)]
pub struct Run {
    pub id: String,
    pub mission_id: String,
    pub task_id: String,
    pub crab_id: String,
    pub status: RunStatus,
    pub burrow: Burrow,
    pub progress_message: String,
    pub summary: Option<String>,
    pub metrics: RunMetrics,
    pub started_at_ms: u64,
    pub updated_at_ms: u64,
    pub completed_at_ms: Option<u64>,
}

impl Clone for Run {
    fn clone(&self) -> (r: Self)
        ensures
            r == *self,
    {
        Run {
            id: self.id.clone(),
            mission_id: self.mission_id.clone(),
            task_id: self.task_id.clone(),
            crab_id: self.crab_id.clone(),
            status: self.status,
            burrow: self.burrow.clone(),
            progress_message: self.progress_message.clone(),
            summary: clone_text(&self.summary),
            metrics: self.metrics,
            started_at_ms: self.started_at_ms,
            updated_at_ms: self.updated_at_ms,
            completed_at_ms: self.completed_at_ms,
        }
    }
}

/// The class of a failed request.
#[derive(Debug, Clone, Copy, PartialEq, Eq, Structural)]
pub enum ErrorKind {
    BadRequest,
    NotFound,
    Internal,
}

/// A failed request: its class and a human-readable message.
#[derive(Debug)]
pub struct ApiError {
    pub kind: ErrorKind,
    pub message: String,
}

impl ApiError {
    pub fn bad_request(message: &str) -> (r: ApiError)
        ensures
            r.kind == ErrorKind::BadRequest,
            r.message@ == message@,
    {
        ApiError { kind: ErrorKind::BadRequest, message: message.to_string() }
    }

    pub fn not_found(message: &str) -> (r: ApiError)
        ensures
            r.kind == ErrorKind::NotFound,
            r.message@ == message@,
    {
        ApiError { kind: ErrorKind::NotFound, message: message.to_string() }
    }

    pub fn internal(message: &str) -> (r: ApiError)
        ensures
            r.kind == ErrorKind::Internal,
            r.message@ == message@,
    {
        ApiError { kind: ErrorKind::Internal, message: message.to_string() }
    }
}

} // verus!

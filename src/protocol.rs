//! Messages between the control plane and workers.

use vstd::prelude::*;
use crate::metrics::RunMetrics;
use crate::model::clone_text;
use crate::trusted::new_uuid_text;
use crate::status::{RunStatus, TaskStatus};

verus! {

/// The work a worker is handed: a task, its mission and where to work.
#[derive(Debug)]
pub struct TaskAssigned {
    pub task_id: String,
    pub mission_id: String,
    pub title: String,
    pub mission_prompt: String,
    pub desired_status: TaskStatus,
    pub step_id: Option<String>,
    pub role: Option<String>,
    pub prompt: Option<String>,
    pub context: Option<String>,
    pub worktree_path: Option<String>,
}

impl Clone for TaskAssigned {
    fn clone(&self) -> (r: Self)
        ensures
            r == *self,
    {
        TaskAssigned {
            task_id: self.task_id.clone(),
            mission_id: self.mission_id.clone(),
            title: self.title.clone(),
            mission_prompt: self.mission_prompt.clone(),
            desired_status: self.desired_status,
            step_id: clone_text(&self.step_id),
            role: clone_text(&self.role),
            prompt: clone_text(&self.prompt),
            context: clone_text(&self.context),
            worktree_path: clone_text(&self.worktree_path),
        }
    }
}

/// A worker's note on a task.
#[derive(Debug, Clone)]
pub struct TaskProgress {
    pub task_id: String,
    pub status: TaskStatus,
    pub note: String,
}

/// A worker's interim report on a run.
#[derive(Debug, Clone)]
pub struct RunUpdate {
    pub run_id: String,
    pub status: RunStatus,
    pub note: String,
    pub metrics: RunMetrics,
}

/// A worker's final report on a run.
#[derive(Debug, Clone)]
pub struct RunComplete {
    pub run_id: String,
    pub status: RunStatus,
    pub summary: String,
    pub metrics: RunMetrics,
}

/// A worker's liveness signal.
#[derive(Debug, Clone)]
pub struct Heartbeat {
    pub crab_id: String,
    pub healthy: bool,
}

/// What an envelope carries.
#[derive(Debug, Clone)]
pub enum MessageKind {
    TaskAssigned(TaskAssigned),
    TaskProgress(TaskProgress),
    RunUpdate(RunUpdate),
    RunComplete(RunComplete),
    Heartbeat(Heartbeat),
}

/// One message on the worker channel, in either direction.
#[derive(Debug, Clone)]
pub struct Envelope {
    pub message_id: String,
    pub mission_id: Option<String>,
    pub task_id: Option<String>,
    pub run_id: Option<String>,
    pub from: String,
    pub to: String,
    pub kind: MessageKind,
    pub sent_at_ms: u64,
}

impl Envelope {
    /// An envelope with a fresh random message id and no mission, task or run.
    pub fn new(from: String, to: String, kind: MessageKind, sent_at_ms: u64) -> (r: Envelope)
        ensures
            r.from == from,
            r.to == to,
            r.kind == kind,
            r.sent_at_ms == sent_at_ms,
            r.mission_id is None,
            r.task_id is None,
            r.run_id is None,
    {
        Envelope {
            message_id: new_uuid_text(),
            mission_id: None,
            task_id: None,
            run_id: None,
            from,
            to,
            kind,
            sent_at_ms,
        }
    }
}

/// A task handed to a crab, to be sent once the transaction is over.
#[derive(Debug)]
pub struct Assignment {
    pub crab_id: String,
    pub payload: TaskAssigned,
}

} // verus!

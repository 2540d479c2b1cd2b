//! The task summary the dashboard lists, the nine states a task can be in,
//! and the severities of a review finding.

use vstd::prelude::*;

verus! {

/// Where a task stands in the orchestrator's pipeline. `Unknown` only
/// appears for a corrupt task directory (its prompt is missing).
#[derive(Debug, Clone, Copy, PartialEq, Eq, Hash, Structural)]
pub enum TaskState {
    Idle,
    Planned,
    Implemented,
    Reviewed,
    Running,
    Done,
    Rejected,
    Failed,
    Unknown,
}

impl TaskState {
    /// A state that only a finished task is in.
    pub open spec fn is_terminal(self) -> bool {
        self == TaskState::Done || self == TaskState::Rejected || self == TaskState::Failed
    }
}

/// One task as the task list reports it. Times are seconds since the UNIX
/// epoch (UTC).
#[derive(Debug, Clone)]
pub struct TaskSummary {
    pub task_id: String,
    pub state: TaskState,
    pub attempts: u32,
    pub prompt_excerpt: String,
    pub created_at: i64,
    pub completed_at: Option<i64>,
    pub stories_passed: Option<u32>,
    pub stories_total: Option<u32>,
    pub iterations: Option<u32>,
    pub elapsed_secs: Option<u64>,
    pub review_assertions_passed: Option<u32>,
    pub review_assertions_total: Option<u32>,
    pub critical_findings: Option<u32>,
    pub judge_verdict: Option<String>,
    pub judge_model: Option<String>,
}

/// How serious a review finding is.
#[derive(Debug, Clone, Copy, PartialEq, Eq, Hash, Structural)]
pub enum Severity {
    Info,
    Warning,
    Error,
    Critical,
}

} // verus!

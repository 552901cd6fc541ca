//! The lifecycle status of a job and the status codes of the compute service.

use crate::text::same_text;
use vstd::prelude::*;

verus! {

/// Lifecycle status of a job.
#[derive(Debug, Clone, Copy, PartialEq, Eq, Structural)]
pub enum TaskStatus {
    Submited,
    Status,
    ExecutionStart,
    ExecutionCached,
    Executing,
    Progress,
    Executed,
    ExecutionSuccess,
    ExecutionFailed,
}

/// The status that a status code of the compute service stands for. The match
/// is exact; any other code stands for none.
pub open spec fn status_of(code: Seq<char>) -> Option<TaskStatus> {
    if code == "submited"@ {
        Some(TaskStatus::Submited)
    } else if code == "execution_start"@ {
        Some(TaskStatus::ExecutionStart)
    } else if code == "execution_cached"@ {
        Some(TaskStatus::ExecutionCached)
    } else if code == "executing"@ {
        Some(TaskStatus::Executing)
    } else if code == "progress"@ {
        Some(TaskStatus::Progress)
    } else if code == "executed"@ {
        Some(TaskStatus::Executed)
    } else if code == "execution_success"@ {
        Some(TaskStatus::ExecutionSuccess)
    } else if code == "execution_failed"@ {
        Some(TaskStatus::ExecutionFailed)
    } else {
        None
    }
}

impl TaskStatus {
    /// A status from which no further progress is expected.
    pub open spec fn spec_is_terminal(self) -> bool {
        self == TaskStatus::ExecutionSuccess || self == TaskStatus::ExecutionFailed
    }

    /// Whether no further progress is expected from this status.
    #[verifier::when_used_as_spec(spec_is_terminal)]
    pub fn is_terminal(self) -> (terminal: bool)
        ensures
            terminal == self.spec_is_terminal(),
    {
        match self {
            TaskStatus::ExecutionSuccess => true,
            TaskStatus::ExecutionFailed => true,
            _ => false,
        }
    }
}

/// Maps a status code of the compute service to a status.
pub fn parse_status(code: &str) -> (status: Option<TaskStatus>)
    ensures
        status == status_of(code@),
{
    if same_text(code, "submited") {
        Some(TaskStatus::Submited)
    } else if same_text(code, "execution_start") {
        Some(TaskStatus::ExecutionStart)
    } else if same_text(code, "execution_cached") {
        Some(TaskStatus::ExecutionCached)
    } else if same_text(code, "executing") {
        Some(TaskStatus::Executing)
    } else if same_text(code, "progress") {
        Some(TaskStatus::Progress)
    } else if same_text(code, "executed") {
        Some(TaskStatus::Executed)
    } else if same_text(code, "execution_success") {
        Some(TaskStatus::ExecutionSuccess)
    } else if same_text(code, "execution_failed") {
        Some(TaskStatus::ExecutionFailed)
    } else {
        None
    }
}

} // verus!

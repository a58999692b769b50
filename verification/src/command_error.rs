//! Why running a command failed.

use crate::io_failure::{ErrorKind, IoFailure, IoFailureView};
use crate::text::concat2;
use vstd::prelude::*;

verus! {

/// Why running a command failed.
#[derive(Debug, PartialEq, Eq)]
pub enum CommandError {
    Spawn(IoFailure),
    SupervisorUnavailable(IoFailure),
    SupervisorDegraded,
    SupervisorAtCapacity,
    WorkspaceChanged(IoFailure),
    ConfigureOutput(IoFailure),
    Kill(IoFailure),
    Wait(IoFailure),
    ReadOutput(IoFailure),
    Cancelled,
    OutputIncomplete,
    TerminationUnverified,
    TerminationSupervised(String),
    UnsupportedProcessTracking,
}

/// The mathematical value of a [`CommandError`].
pub enum CommandErrorView {
    Spawn(IoFailureView),
    SupervisorUnavailable(IoFailureView),
    SupervisorDegraded,
    SupervisorAtCapacity,
    WorkspaceChanged(IoFailureView),
    ConfigureOutput(IoFailureView),
    Kill(IoFailureView),
    Wait(IoFailureView),
    ReadOutput(IoFailureView),
    Cancelled,
    OutputIncomplete,
    TerminationUnverified,
    TerminationSupervised(Seq<char>),
    UnsupportedProcessTracking,
}

impl View for CommandError {
    type V = CommandErrorView;

    open spec fn view(&self) -> CommandErrorView {
        match self {
            CommandError::Spawn(source) => CommandErrorView::Spawn(source@),
            CommandError::SupervisorUnavailable(source) => {
                CommandErrorView::SupervisorUnavailable(source@)
            },
            CommandError::SupervisorDegraded => CommandErrorView::SupervisorDegraded,
            CommandError::SupervisorAtCapacity => CommandErrorView::SupervisorAtCapacity,
            CommandError::WorkspaceChanged(source) => CommandErrorView::WorkspaceChanged(source@),
            CommandError::ConfigureOutput(source) => CommandErrorView::ConfigureOutput(source@),
            CommandError::Kill(source) => CommandErrorView::Kill(source@),
            CommandError::Wait(source) => CommandErrorView::Wait(source@),
            CommandError::ReadOutput(source) => CommandErrorView::ReadOutput(source@),
            CommandError::Cancelled => CommandErrorView::Cancelled,
            CommandError::OutputIncomplete => CommandErrorView::OutputIncomplete,
            CommandError::TerminationUnverified => CommandErrorView::TerminationUnverified,
            CommandError::TerminationSupervised(message) => {
                CommandErrorView::TerminationSupervised(message@)
            },
            CommandError::UnsupportedProcessTracking => {
                CommandErrorView::UnsupportedProcessTracking
            },
        }
    }
}

/// The mathematical value of the outcome of a step.
pub open spec fn outcome_view<T>(outcome: Result<T, CommandError>) -> Result<T, CommandErrorView> {
    match outcome {
        Ok(value) => Ok(value),
        Err(error) => Err(error@),
    }
}

impl CommandErrorView {
    pub open spec fn code(self) -> Seq<char> {
        match self {
            CommandErrorView::Spawn(_) => "command_spawn_failed"@,
            CommandErrorView::SupervisorUnavailable(_) => "command_supervisor_unavailable"@,
            CommandErrorView::SupervisorDegraded => "command_supervisor_degraded"@,
            CommandErrorView::SupervisorAtCapacity => "command_supervisor_pressure"@,
            CommandErrorView::WorkspaceChanged(_) => "workspace_changed"@,
            CommandErrorView::ConfigureOutput(_) => "command_io_error"@,
            CommandErrorView::Kill(_) => "command_io_error"@,
            CommandErrorView::Wait(_) => "command_io_error"@,
            CommandErrorView::ReadOutput(_) => "command_io_error"@,
            CommandErrorView::Cancelled => "tool_cancelled"@,
            CommandErrorView::OutputIncomplete => "command_output_incomplete"@,
            CommandErrorView::TerminationUnverified => "command_termination_unverified"@,
            CommandErrorView::TerminationSupervised(_) => "command_termination_unverified"@,
            CommandErrorView::UnsupportedProcessTracking => {
                "command_process_tracking_unsupported"@
            },
        }
    }

    pub open spec fn retryable(self) -> bool {
        match self {
            CommandErrorView::SupervisorUnavailable(_) => true,
            CommandErrorView::SupervisorAtCapacity => true,
            CommandErrorView::ConfigureOutput(source) => source.kind == ErrorKind::Interrupted,
            CommandErrorView::Kill(source) => source.kind == ErrorKind::Interrupted,
            CommandErrorView::Wait(source) => source.kind == ErrorKind::Interrupted,
            CommandErrorView::ReadOutput(source) => source.kind == ErrorKind::Interrupted,
            _ => false,
        }
    }

    pub open spec fn message(self) -> Seq<char> {
        match self {
            CommandErrorView::Spawn(source) => "failed to start command: "@ + source.message,
            CommandErrorView::SupervisorUnavailable(source) => {
                "command supervisor is unavailable; no command was started: "@ + source.message
            },
            CommandErrorView::SupervisorDegraded => {
                "command supervisor is degraded after repeated internal failures; no command was started"@
            },
            CommandErrorView::SupervisorAtCapacity => {
                "command supervision capacity is exhausted; no command was started"@
            },
            CommandErrorView::WorkspaceChanged(source) => {
                "selected workspace is no longer available: "@ + source.message
            },
            CommandErrorView::ConfigureOutput(source) => {
                "failed to configure command output capture: "@ + source.message
            },
            CommandErrorView::Kill(source) => "failed to terminate command group: "@
                + source.message,
            CommandErrorView::Wait(source) => "failed to wait for command: "@ + source.message,
            CommandErrorView::ReadOutput(source) => "failed to capture command output: "@
                + source.message,
            CommandErrorView::Cancelled => "run_command was cancelled"@,
            CommandErrorView::OutputIncomplete => {
                "command output remained open after the command process group exited"@
            },
            CommandErrorView::TerminationUnverified => {
                "termination was requested for signal-compatible process-group members; detached or credential-changing descendants were not verified"@
            },
            CommandErrorView::TerminationSupervised(message) => message,
            CommandErrorView::UnsupportedProcessTracking => {
                "stable command process-group tracking is not supported on this platform"@
            },
        }
    }
}

impl CommandError {
    /// The code of the tool failure that reports the error.
    pub fn code(&self) -> (code: &'static str)
        ensures
            code@ == self@.code(),
    {
        match self {
            CommandError::Spawn(_) => "command_spawn_failed",
            CommandError::SupervisorUnavailable(_) => "command_supervisor_unavailable",
            CommandError::SupervisorDegraded => "command_supervisor_degraded",
            CommandError::SupervisorAtCapacity => "command_supervisor_pressure",
            CommandError::WorkspaceChanged(_) => "workspace_changed",
            CommandError::ConfigureOutput(_) => "command_io_error",
            CommandError::Kill(_) => "command_io_error",
            CommandError::Wait(_) => "command_io_error",
            CommandError::ReadOutput(_) => "command_io_error",
            CommandError::Cancelled => "tool_cancelled",
            CommandError::OutputIncomplete => "command_output_incomplete",
            CommandError::TerminationUnverified => "command_termination_unverified",
            CommandError::TerminationSupervised(_) => "command_termination_unverified",
            CommandError::UnsupportedProcessTracking => "command_process_tracking_unsupported",
        }
    }

    /// Whether the same command may succeed when it is run again.
    pub fn retryable(&self) -> (result: bool)
        ensures
            result == self@.retryable(),
    {
        match self {
            CommandError::SupervisorUnavailable(_) => true,
            CommandError::SupervisorAtCapacity => true,
            CommandError::ConfigureOutput(source) => source.is_interrupted(),
            CommandError::Kill(source) => source.is_interrupted(),
            CommandError::Wait(source) => source.is_interrupted(),
            CommandError::ReadOutput(source) => source.is_interrupted(),
            _ => false,
        }
    }

    /// The error in words.
    pub fn message(&self) -> (message: String)
        ensures
            message@ == self@.message(),
    {
        match self {
            CommandError::Spawn(source) => concat2(
                "failed to start command: ",
                source.message.as_str(),
            ),
            CommandError::SupervisorUnavailable(source) => concat2(
                "command supervisor is unavailable; no command was started: ",
                source.message.as_str(),
            ),
            CommandError::SupervisorDegraded => {
                "command supervisor is degraded after repeated internal failures; no command was started".to_owned()
            },
            CommandError::SupervisorAtCapacity => {
                "command supervision capacity is exhausted; no command was started".to_owned()
            },
            CommandError::WorkspaceChanged(source) => concat2(
                "selected workspace is no longer available: ",
                source.message.as_str(),
            ),
            CommandError::ConfigureOutput(source) => concat2(
                "failed to configure command output capture: ",
                source.message.as_str(),
            ),
            CommandError::Kill(source) => concat2(
                "failed to terminate command group: ",
                source.message.as_str(),
            ),
            CommandError::Wait(source) => concat2(
                "failed to wait for command: ",
                source.message.as_str(),
            ),
            CommandError::ReadOutput(source) => concat2(
                "failed to capture command output: ",
                source.message.as_str(),
            ),
            CommandError::Cancelled => "run_command was cancelled".to_owned(),
            CommandError::OutputIncomplete => {
                "command output remained open after the command process group exited".to_owned()
            },
            CommandError::TerminationUnverified => {
                "termination was requested for signal-compatible process-group members; detached or credential-changing descendants were not verified".to_owned()
            },
            CommandError::TerminationSupervised(message) => message.as_str().to_owned(),
            CommandError::UnsupportedProcessTracking => {
                "stable command process-group tracking is not supported on this platform".to_owned()
            },
        }
    }
}

} // verus!

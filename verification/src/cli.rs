//! The program as a whole: how it ends, and what it says when it cannot.

use crate::args::SignalAction;
use crate::fake_provider::FakeProviderError;
use crate::io_failure::IoFailure;
use crate::run::{RunId, TerminalRunStatus, TerminalView};
use crate::state::StateError;
use crate::stop;
use crate::stop::RunStopToken;
use crate::text;
use crate::text::{concat2, concat3, decimal};
use crate::tools::CodingCapabilityRegistrationError;
use crate::workspace::CodingWorkspaceError;
use vstd::prelude::*;

verus! {

/// How the program ends behind a run.
#[derive(Clone, Copy, Debug, PartialEq, Eq, Structural)]
pub enum CliExitStatus {
    Completed,
    Failed,
    Interrupted,
    Cancelled,
}

impl CliExitStatus {
    /// The status that the process exits with.
    pub open spec fn exit_code(self) -> u8 {
        match self {
            CliExitStatus::Completed => 0,
            CliExitStatus::Failed => 2,
            CliExitStatus::Interrupted => 130,
            CliExitStatus::Cancelled => 125,
        }
    }

    /// The status that the process exits with.
    pub fn code(self) -> (code: u8)
        ensures
            code == self.exit_code(),
    {
        match self {
            CliExitStatus::Completed => 0,
            CliExitStatus::Failed => 2,
            CliExitStatus::Interrupted => 130,
            CliExitStatus::Cancelled => 125,
        }
    }

    /// How the program ends behind a run that ended so.
    pub open spec fn behind(status: TerminalView) -> CliExitStatus {
        match status {
            TerminalView::Completed { .. } => CliExitStatus::Completed,
            TerminalView::Failed { .. } => CliExitStatus::Failed,
            TerminalView::Interrupted { .. } => CliExitStatus::Interrupted,
            TerminalView::Cancelled { .. } => CliExitStatus::Cancelled,
        }
    }

    /// How the program ends behind a run that ended so.
    pub fn of(status: &TerminalRunStatus) -> (exit: CliExitStatus)
        ensures
            exit == CliExitStatus::behind(status@),
    {
        match status {
            TerminalRunStatus::Completed { .. } => CliExitStatus::Completed,
            TerminalRunStatus::Failed { .. } => CliExitStatus::Failed,
            TerminalRunStatus::Interrupted { .. } => CliExitStatus::Interrupted,
            TerminalRunStatus::Cancelled { .. } => CliExitStatus::Cancelled,
        }
    }
}

/// Runs that end in different ways can be told apart by the exit status, and
/// only a run that completed exits with success.
pub proof fn law_exit_codes_tell_ends_apart(first: CliExitStatus, second: CliExitStatus)
    ensures
        first.exit_code() == second.exit_code() ==> first == second,
        first.exit_code() == 0 <==> first == CliExitStatus::Completed,
{
}

/// The name of a run of a process, at a time.
pub fn new_run_id(process: u32, nonce: u128) -> (id: RunId)
    ensures
        id@ == "run-"@ + text::decimal_text(process as nat) + "-"@ + text::decimal_text(
            nonce as nat,
        ),
{
    let number = decimal(process as u128);
    let time = decimal(nonce);
    let beginning = concat3("run-", number.as_str(), "-");
    RunId::new(concat2(beginning.as_str(), time.as_str()))
}

/// What a signal asks of a run.
pub open spec fn signalled(action: SignalAction) -> TerminalView {
    match action {
        SignalAction::Interrupt => TerminalView::Interrupted {
            reason: "process signal requested interruption"@,
        },
        SignalAction::Cancel => TerminalView::Cancelled {
            reason: "process signal requested cancellation"@,
        },
    }
}

/// Takes a signal.
pub fn handle_signal(action: SignalAction, token: &mut RunStopToken)
    ensures
        final(token)@ == Some(stop::resolved(old(token)@, signalled(action))),
{
    match action {
        SignalAction::Interrupt => {
            token.interrupt("process signal requested interruption".to_owned());
        },
        SignalAction::Cancel => {
            token.cancel("process signal requested cancellation".to_owned());
        },
    }
}

/// Why the program gave up.
#[derive(Debug, PartialEq, Eq)]
pub enum CliError {
    Arguments(String),
    Workspace(CodingWorkspaceError),
    FakeProvider(FakeProviderError),
    State(StateError),
    /// The words of the failure to install the signal handler.
    InstallSignal(String),
    RegisterCapability(CodingCapabilityRegistrationError),
    /// The words of the failure of the run.
    Runtime(String),
    /// The words of the failure to tell the time.
    SystemClock(String),
    TerminalOutput(IoFailure),
}

impl CliError {
    /// The error in words.
    pub open spec fn text(self) -> Seq<char> {
        match self {
            CliError::Arguments(message) => message@,
            CliError::Workspace(source) => "failed to open workspace: "@ + source@.message(),
            CliError::FakeProvider(source) => source@.message(),
            CliError::State(source) => source@.message(),
            CliError::InstallSignal(source) => "failed to install process signal handler: "@
                + source@,
            CliError::RegisterCapability(source) => source@.message(),
            CliError::Runtime(source) => "Agent Run failed: "@ + source@,
            CliError::SystemClock(source) => "system clock is invalid: "@ + source@,
            CliError::TerminalOutput(source) => "terminal output failed: "@ + source@.message,
        }
    }

    /// The error in words.
    pub fn message(&self) -> (message: String)
        ensures
            message@ == self.text(),
    {
        match self {
            CliError::Arguments(message) => message.as_str().to_owned(),
            CliError::Workspace(source) => concat2(
                "failed to open workspace: ",
                source.message().as_str(),
            ),
            CliError::FakeProvider(source) => source.message(),
            CliError::State(source) => source.message(),
            CliError::InstallSignal(source) => concat2(
                "failed to install process signal handler: ",
                source.as_str(),
            ),
            CliError::RegisterCapability(source) => source.message(),
            CliError::Runtime(source) => concat2("Agent Run failed: ", source.as_str()),
            CliError::SystemClock(source) => concat2("system clock is invalid: ", source.as_str()),
            CliError::TerminalOutput(source) => concat2(
                "terminal output failed: ",
                source.message.as_str(),
            ),
        }
    }
}

} // verus!

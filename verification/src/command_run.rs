//! The run of a command as a whole: what comes before its control, and how it
//! is concluded.

use crate::capture;
use crate::capture::{OutputPair, PairView};
use crate::command_cleanup;
use crate::command_cleanup::{
    reconcile_control_and_cleanup, CommandCleanupCompletion, CommandCleanupState,
};
use crate::command_control::{CommandControl, ControlPhase, ControlView, ExitOutcome};
use crate::command_error;
use crate::command_error::{CommandError, CommandErrorView};
use crate::io_failure;
use crate::io_failure::{IoFailure, IoFailureView};
use vstd::prelude::*;

verus! {

/// The platforms that running a command tells apart.
#[derive(Clone, Copy, Debug, PartialEq, Eq, Structural)]
pub enum Platform {
    Linux,
    MacOs,
    OtherUnix,
    Windows,
    Other,
}

/// How the processes of a command are held in check.
pub open spec fn security_policy(platform: Platform) -> Seq<char> {
    match platform {
        Platform::Linux => "no_new_privs_and_group_termination"@,
        Platform::MacOs => "group_termination_without_credential_lock"@,
        _ => "unsupported"@,
    }
}

/// Executable form of [`security_policy`].
pub fn process_security_policy(platform: Platform) -> (policy: &'static str)
    ensures
        policy@ == security_policy(platform),
{
    match platform {
        Platform::Linux => "no_new_privs_and_group_termination",
        Platform::MacOs => "group_termination_without_credential_lock",
        _ => "unsupported",
    }
}

/// Whether a command cannot gain privileges by executing a program.
pub fn exec_privilege_gain_blocked(platform: Platform) -> (blocked: bool)
    ensures
        blocked == (platform == Platform::Linux),
{
    matches!(platform, Platform::Linux)
}

/// Whether the processes of a command can be tracked.
pub open spec fn tracking_supported(platform: Platform) -> bool {
    platform == Platform::Linux || platform == Platform::MacOs
}

/// Fails where the processes of a command cannot be tracked.
pub fn ensure_process_tracking_supported(platform: Platform) -> (result: Result<(), CommandError>)
    ensures
        tracking_supported(platform) ==> result == Ok::<(), CommandError>(()),
        !tracking_supported(platform) ==> result == Err::<(), CommandError>(
            CommandError::UnsupportedProcessTracking,
        ),
{
    match platform {
        Platform::Linux | Platform::MacOs => Ok(()),
        _ => Err(CommandError::UnsupportedProcessTracking),
    }
}

/// The program that runs a command line, and its arguments.
pub fn shell_command(platform: Platform, command: &str) -> (words: Vec<String>)
    ensures
        crate::text::texts(words@) == if platform == Platform::Windows {
            seq!["cmd.exe"@, "/D"@, "/S"@, "/C"@, command@]
        } else {
            seq!["/bin/sh"@, "-c"@, command@]
        },
{
    let mut words: Vec<String> = Vec::new();
    if matches!(platform, Platform::Windows) {
        words.push("cmd.exe".to_owned());
        words.push("/D".to_owned());
        words.push("/S".to_owned());
        words.push("/C".to_owned());
        words.push(command.to_owned());
        assert(crate::text::texts(words@) =~= seq!["cmd.exe"@, "/D"@, "/S"@, "/C"@, command@]);
    } else {
        words.push("/bin/sh".to_owned());
        words.push("-c".to_owned());
        words.push(command.to_owned());
        assert(crate::text::texts(words@) =~= seq!["/bin/sh"@, "-c"@, command@]);
    }
    words
}

/// What the start of a command waits for.
#[derive(Clone, Copy, Debug, PartialEq, Eq, Structural)]
pub enum StartPhase {
    PollCancellation,
    /// A place with the supervisor.
    Supervise,
    /// The working directory, which is checked once more.
    BindWorkspace,
    /// The descendant token.
    PrepareToken,
    Spawn,
    /// Both streams are made nonblocking.
    ConfigureOutput,
    /// The spawned command, whose output cannot be read, is cleaned up.
    CleanUp,
    /// The command runs under control.
    Started,
    Failed,
}

/// What was found for the start of a command.
#[derive(Debug, PartialEq, Eq)]
pub enum StartEvent {
    Cancellation(bool),
    Supervised(Result<(), CommandError>),
    Done(Result<(), IoFailure>),
    CleanedUp(Result<CommandCleanupCompletion, CommandError>),
}

/// The mathematical value of a [`StartEvent`].
pub enum StartEventView {
    Cancellation(bool),
    Supervised(Result<(), CommandErrorView>),
    Done(Result<(), IoFailureView>),
    CleanedUp(Result<CommandCleanupCompletion, CommandErrorView>),
}

impl View for StartEvent {
    type V = StartEventView;

    open spec fn view(&self) -> StartEventView {
        match *self {
            StartEvent::Cancellation(requested) => StartEventView::Cancellation(requested),
            StartEvent::Supervised(permit) => {
                StartEventView::Supervised(command_error::outcome_view(permit))
            },
            StartEvent::Done(done) => StartEventView::Done(io_failure::call_view(done)),
            StartEvent::CleanedUp(cleanup) => {
                StartEventView::CleanedUp(command_error::outcome_view(cleanup))
            },
        }
    }
}

/// The mathematical value of a [`CommandStart`].
pub struct StartView {
    pub platform: Platform,
    pub phase: StartPhase,
    /// Why the start fails, once it does.
    pub failure: Option<CommandErrorView>,
}

impl StartView {
    pub open spec fn well_formed(self) -> bool {
        self.phase == StartPhase::Failed || self.phase == StartPhase::CleanUp <==> self.failure
            is Some
    }

    pub open spec fn in_phase(self, phase: StartPhase) -> StartView {
        StartView { phase, ..self }
    }

    pub open spec fn failed(self, error: CommandErrorView) -> StartView {
        StartView { phase: StartPhase::Failed, failure: Some(error), ..self }
    }

    /// The phase behind a step that was done, or the error of one that failed.
    pub open spec fn after(
        self,
        done: Result<(), IoFailureView>,
        next: StartPhase,
        error: spec_fn(IoFailureView) -> CommandErrorView,
    ) -> StartView {
        match done {
            Ok(()) => self.in_phase(next),
            Err(source) => self.failed(error(source)),
        }
    }

    /// How an event moves the start on. An event that it does not wait for
    /// leaves it where it is.
    pub open spec fn step(self, event: StartEventView) -> StartView {
        match (self.phase, event) {
            (StartPhase::PollCancellation, StartEventView::Cancellation(requested)) => {
                if requested {
                    self.failed(CommandErrorView::Cancelled)
                } else if !tracking_supported(self.platform) {
                    self.failed(CommandErrorView::UnsupportedProcessTracking)
                } else {
                    self.in_phase(StartPhase::Supervise)
                }
            },
            (StartPhase::Supervise, StartEventView::Supervised(permit)) => match permit {
                Ok(()) => self.in_phase(StartPhase::BindWorkspace),
                Err(error) => self.failed(error),
            },
            (StartPhase::BindWorkspace, StartEventView::Done(done)) => self.after(
                done,
                StartPhase::PrepareToken,
                |source: IoFailureView| CommandErrorView::WorkspaceChanged(source),
            ),
            (StartPhase::PrepareToken, StartEventView::Done(done)) => self.after(
                done,
                StartPhase::Spawn,
                |source: IoFailureView| CommandErrorView::ConfigureOutput(source),
            ),
            (StartPhase::Spawn, StartEventView::Done(done)) => self.after(
                done,
                StartPhase::ConfigureOutput,
                |source: IoFailureView| CommandErrorView::Spawn(source),
            ),
            (StartPhase::ConfigureOutput, StartEventView::Done(done)) => match done {
                Ok(()) => self.in_phase(StartPhase::Started),
                Err(source) => StartView {
                    phase: StartPhase::CleanUp,
                    failure: Some(CommandErrorView::ConfigureOutput(source)),
                    ..self
                },
            },
            (StartPhase::CleanUp, StartEventView::CleanedUp(cleanup)) => match cleanup {
                Ok(_) => self.in_phase(StartPhase::Failed),
                Err(error) => self.failed(error),
            },
            _ => self,
        }
    }
}

/// The start of a command.
pub struct CommandStart {
    platform: Platform,
    phase: StartPhase,
    failure: Option<CommandError>,
}

impl View for CommandStart {
    type V = StartView;

    closed spec fn view(&self) -> StartView {
        StartView {
            platform: self.platform,
            phase: self.phase,
            failure: command_cleanup::optional_error(self.failure),
        }
    }
}

impl CommandStart {
    /// The start of a command on a platform.
    pub fn new(platform: Platform) -> (start: CommandStart)
        ensures
            start@ == (StartView {
                platform,
                phase: StartPhase::PollCancellation,
                failure: None,
            }),
            start@.well_formed(),
    {
        CommandStart { platform, phase: StartPhase::PollCancellation, failure: None }
    }

    /// What the start waits for.
    pub fn phase(&self) -> (phase: StartPhase)
        ensures
            phase == self@.phase,
    {
        self.phase
    }

    fn fail(&mut self, error: CommandError)
        ensures
            final(self)@ == old(self)@.failed(error@),
    {
        self.failure = Some(error);
        self.phase = StartPhase::Failed;
    }

    fn after_done(&mut self, done: Result<(), IoFailure>)
        requires
            old(self)@.well_formed(),
        ensures
            final(self)@ == old(self)@.step(StartEventView::Done(io_failure::call_view(done))),
            final(self)@.well_formed(),
    {
        match (self.phase, done) {
            (StartPhase::BindWorkspace, Ok(())) => {
                self.phase = StartPhase::PrepareToken;
            },
            (StartPhase::BindWorkspace, Err(source)) => {
                self.fail(CommandError::WorkspaceChanged(source));
            },
            (StartPhase::PrepareToken, Ok(())) => {
                self.phase = StartPhase::Spawn;
            },
            (StartPhase::PrepareToken, Err(source)) => {
                self.fail(CommandError::ConfigureOutput(source));
            },
            (StartPhase::Spawn, Ok(())) => {
                self.phase = StartPhase::ConfigureOutput;
            },
            (StartPhase::Spawn, Err(source)) => {
                self.fail(CommandError::Spawn(source));
            },
            (StartPhase::ConfigureOutput, Ok(())) => {
                self.phase = StartPhase::Started;
            },
            (StartPhase::ConfigureOutput, Err(source)) => {
                self.failure = Some(CommandError::ConfigureOutput(source));
                self.phase = StartPhase::CleanUp;
            },
            _ => {},
        }
    }

    /// Takes an event.
    pub fn advance(&mut self, event: StartEvent)
        requires
            old(self)@.well_formed(),
        ensures
            final(self)@ == old(self)@.step(event@),
            final(self)@.well_formed(),
    {
        match (self.phase, event) {
            (StartPhase::PollCancellation, StartEvent::Cancellation(requested)) => {
                if requested {
                    self.fail(CommandError::Cancelled);
                } else {
                    match ensure_process_tracking_supported(self.platform) {
                        Ok(()) => {
                            self.phase = StartPhase::Supervise;
                        },
                        Err(error) => {
                            self.fail(error);
                        },
                    }
                }
            },
            (StartPhase::Supervise, StartEvent::Supervised(Ok(()))) => {
                self.phase = StartPhase::BindWorkspace;
            },
            (StartPhase::Supervise, StartEvent::Supervised(Err(error))) => {
                self.fail(error);
            },
            (_, StartEvent::Done(done)) => {
                self.after_done(done);
            },
            (StartPhase::CleanUp, StartEvent::CleanedUp(Ok(_))) => {
                self.phase = StartPhase::Failed;
            },
            (StartPhase::CleanUp, StartEvent::CleanedUp(Err(error))) => {
                self.fail(error);
            },
            _ => {},
        }
    }

    /// Why the start failed, where it did.
    pub fn failure(self) -> (failure: Option<CommandError>)
        ensures
            command_cleanup::optional_error(failure) == self@.failure,
    {
        self.failure
    }
}

/// How a command ended, and what it wrote.
#[derive(Debug, PartialEq, Eq)]
pub struct CommandOutcome {
    pub status: ExitOutcome,
    pub stdout: String,
    pub stderr: String,
    pub stdout_bytes: u64,
    pub stderr_bytes: u64,
    pub stdout_truncated: bool,
    pub stderr_truncated: bool,
    pub output_incomplete: bool,
}

/// The mathematical value of a [`CommandOutcome`].
pub struct OutcomeView {
    pub status: ExitOutcome,
    pub stdout: Seq<char>,
    pub stderr: Seq<char>,
    pub stdout_bytes: u64,
    pub stderr_bytes: u64,
    pub stdout_truncated: bool,
    pub stderr_truncated: bool,
    pub output_incomplete: bool,
}

impl View for CommandOutcome {
    type V = OutcomeView;

    open spec fn view(&self) -> OutcomeView {
        OutcomeView {
            status: self.status,
            stdout: self.stdout@,
            stderr: self.stderr@,
            stdout_bytes: self.stdout_bytes,
            stderr_bytes: self.stderr_bytes,
            stdout_truncated: self.stdout_truncated,
            stderr_truncated: self.stderr_truncated,
            output_incomplete: self.output_incomplete,
        }
    }
}

/// What the cleanup finds behind the control of a command.
pub open spec fn cleanup_state(control: ControlView) -> CommandCleanupState {
    if control.status is Some {
        CommandCleanupState::AlreadyReaped
    } else {
        CommandCleanupState::TerminateAndReap
    }
}

/// Whether what a command still wrote is read behind its cleanup: where the
/// control broke off and the cleanup reaped the command.
pub open spec fn drains(
    control: ControlView,
    cleanup: Result<CommandCleanupCompletion, CommandErrorView>,
) -> bool {
    control.failure is Some && cleanup is Ok && cleanup->Ok_0 is Reaped
}

/// How a run is concluded from its control, its output and its cleanup. Errors
/// go by their weight: what control and cleanup say together, output that could
/// not be read, a cancellation, and output that stayed open.
pub open spec fn conclusion(
    control: ControlView,
    output: PairView,
    cleanup: Result<CommandCleanupCompletion, CommandErrorView>,
) -> Result<OutcomeView, CommandErrorView> {
    match command_cleanup::reconciled(
        control.failure,
        cleanup,
        control.cancelled,
        output.done(),
    ) {
        Err(error) => Err(error),
        Ok(found) => if output.error is Some {
            Err(CommandErrorView::ReadOutput(output.error->Some_0))
        } else if control.cancelled {
            Err(CommandErrorView::TerminationUnverified)
        } else if control.output_incomplete {
            Err(CommandErrorView::OutputIncomplete)
        } else {
            Ok(
                OutcomeView {
                    status: match found {
                        Some(status) => status,
                        None => control.status->Some_0,
                    },
                    stdout: capture::lossy_text(output.stdout.capture.retained),
                    stderr: capture::lossy_text(output.stderr.capture.retained),
                    stdout_bytes: output.stdout.capture.total_bytes,
                    stderr_bytes: output.stderr.capture.total_bytes,
                    stdout_truncated: output.stdout.capture.truncated,
                    stderr_truncated: output.stderr.capture.truncated,
                    output_incomplete: false,
                },
            )
        },
    }
}

/// What the control of a command left behind.
pub struct ControlEnd {
    status: Option<ExitOutcome>,
    output_incomplete: bool,
    cancelled: bool,
    failure: Option<CommandError>,
    end: Ghost<ControlView>,
}

impl ControlEnd {
    /// The control that came to its end.
    pub closed spec fn control(&self) -> ControlView {
        self.end@
    }

    /// The parts stand for the control.
    pub closed spec fn well_formed(&self) -> bool {
        &&& self.end@.well_formed()
        &&& self.end@.phase == ControlPhase::Finished
        &&& self.status == self.end@.status
        &&& self.output_incomplete == self.end@.output_incomplete
        &&& self.cancelled == self.end@.cancelled
        &&& command_cleanup::optional_error(self.failure) == self.end@.failure
    }

    /// Takes a control that is over apart, into its decisions and its output.
    pub fn of(control: CommandControl) -> (parts: (ControlEnd, OutputPair))
        requires
            control@.well_formed(),
            control@.phase == ControlPhase::Finished,
        ensures
            parts.0.well_formed(),
            parts.0.control() == control@,
            parts.1@ == control@.output,
    {
        let ghost end = control@;
        let (output, status, output_incomplete, cancelled, failure) = control.into_parts();
        (
            ControlEnd { status, output_incomplete, cancelled, failure, end: Ghost(end) },
            output,
        )
    }

    /// What the cleanup finds.
    pub fn cleanup_state(&self) -> (state: CommandCleanupState)
        requires
            self.well_formed(),
        ensures
            state == cleanup_state(self.control()),
    {
        if self.status.is_some() {
            CommandCleanupState::AlreadyReaped
        } else {
            CommandCleanupState::TerminateAndReap
        }
    }

    /// Whether what the command still wrote is read behind its cleanup.
    pub fn drains(&self, cleanup: &Result<CommandCleanupCompletion, CommandError>) -> (result: bool)
        requires
            self.well_formed(),
        ensures
            result == drains(self.control(), command_error::outcome_view(*cleanup)),
    {
        if self.failure.is_none() {
            return false;
        }
        match cleanup {
            Ok(CommandCleanupCompletion::Reaped { .. }) => true,
            _ => false,
        }
    }

    /// Concludes the run.
    pub fn conclude(
        self,
        output: OutputPair,
        cleanup: Result<CommandCleanupCompletion, CommandError>,
    ) -> (outcome: Result<CommandOutcome, CommandError>)
        requires
            self.well_formed(),
        ensures
            match outcome {
                Ok(value) => conclusion(
                    self.control(),
                    output@,
                    command_error::outcome_view(cleanup),
                ) == Ok::<OutcomeView, CommandErrorView>(value@),
                Err(error) => conclusion(
                    self.control(),
                    output@,
                    command_error::outcome_view(cleanup),
                ) == Err::<OutcomeView, CommandErrorView>(error@),
            },
    {
        let control = match self.failure {
            Some(error) => Err(error),
            None => Ok(()),
        };
        let found = match reconcile_control_and_cleanup(
            control,
            cleanup,
            self.cancelled,
            output.done(),
        ) {
            Ok(found) => found,
            Err(error) => {
                return Err(error);
            },
        };
        let stdout = output.stdout().capture().text();
        let stderr = output.stderr().capture().text();
        let stdout_bytes: u64 = output.stdout().capture().total_bytes();
        let stderr_bytes: u64 = output.stderr().capture().total_bytes();
        let stdout_truncated = output.stdout().capture().truncated();
        let stderr_truncated = output.stderr().capture().truncated();
        if let Some(source) = output.take_error() {
            return Err(CommandError::ReadOutput(source));
        }
        if self.cancelled {
            return Err(CommandError::TerminationUnverified);
        }
        if self.output_incomplete {
            return Err(CommandError::OutputIncomplete);
        }
        let status = match found {
            Some(status) => status,
            None => match self.status {
                Some(status) => status,
                None => vstd::pervasive::unreached(),
            },
        };
        Ok(
            CommandOutcome {
                status,
                stdout,
                stderr,
                stdout_bytes,
                stderr_bytes,
                stdout_truncated,
                stderr_truncated,
                output_incomplete: false,
            },
        )
    }
}

/// A run that was cancelled, or whose output stayed open or could not be read,
/// never succeeds, whatever its cleanup says.
pub proof fn law_interrupted_runs_never_succeed(
    control: ControlView,
    output: PairView,
    cleanup: Result<CommandCleanupCompletion, CommandErrorView>,
)
    requires
        control.cancelled || control.output_incomplete || output.error is Some || cleanup is Err,
    ensures
        conclusion(control, output, cleanup) is Err,
{
}

/// A run whose control broke off succeeds only when its cleanup reaped the
/// command, saw every tracked descendant end, and all output was read.
pub proof fn law_broken_controls_need_a_verified_cleanup(
    control: ControlView,
    output: PairView,
    cleanup: Result<CommandCleanupCompletion, CommandErrorView>,
)
    requires
        control.failure is Some,
        conclusion(control, output, cleanup) is Ok,
    ensures
        control.failure == Some(CommandErrorView::TerminationUnverified),
        output.done(),
        cleanup matches Ok(CommandCleanupCompletion::Reaped { tracked_descendants_sealed, .. })
            && tracked_descendants_sealed,
{
}

} // verus!

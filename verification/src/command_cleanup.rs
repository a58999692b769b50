//! What follows the control of a command: ending what is left of it, reading
//! what it still wrote, and settling how it ended.

use crate::capture::{Channel, OutputPair, PairView, ReadView, StreamRead};
use crate::command_control::{ExitOutcome, MAX_EXIT_POLL_INTERVAL, OUTPUT_DRAIN_GRACE};
use crate::command_error;
use crate::command_error::{CommandError, CommandErrorView};
use crate::command_group;
use crate::command_group::group_signal_permission_denied;
use crate::command_seal;
use crate::command_seal::add_time;
use crate::io_failure;
use crate::io_failure::{IoFailure, IoFailureView};
use crate::text::{concat2, concat3};
use vstd::prelude::*;

verus! {

/// What the cleanup finds.
#[derive(Clone, Copy, Debug, PartialEq, Eq, Structural)]
pub enum CommandCleanupState {
    AlreadyReaped,
    TerminateAndReap,
}

/// How the cleanup succeeded.
#[derive(Clone, Copy, Debug, PartialEq, Eq, Structural)]
pub enum CommandCleanupCompletion {
    AlreadyReaped,
    Reaped { status: ExitOutcome, tracked_descendants_sealed: bool },
}

/// What the cleanup waits for.
#[derive(Clone, Copy, Debug, PartialEq, Eq, Structural)]
pub enum CleanupPhase {
    Terminate,
    AwaitLeader,
    SealAndReap,
    /// The live command goes over to the supervisor.
    HandOff,
    Finished,
}

/// What was found for the cleanup.
#[derive(Debug, PartialEq, Eq)]
pub enum CleanupEvent {
    Terminated(Result<(), CommandError>),
    LeaderEnded(Result<bool, CommandError>),
    Sealed { reaped: Result<ExitOutcome, CommandError>, descendants_sealed: bool },
    /// The command is with the supervisor, whose worker runs or could not be
    /// started.
    HandedOff(Result<(), IoFailure>),
}

/// The mathematical value of a [`CleanupEvent`].
pub enum CleanupEventView {
    Terminated(Result<(), CommandErrorView>),
    LeaderEnded(Result<bool, CommandErrorView>),
    Sealed { reaped: Result<ExitOutcome, CommandErrorView>, descendants_sealed: bool },
    HandedOff(Result<(), IoFailureView>),
}

impl View for CleanupEvent {
    type V = CleanupEventView;

    open spec fn view(&self) -> CleanupEventView {
        match *self {
            CleanupEvent::Terminated(sent) => {
                CleanupEventView::Terminated(command_error::outcome_view(sent))
            },
            CleanupEvent::LeaderEnded(ended) => {
                CleanupEventView::LeaderEnded(command_error::outcome_view(ended))
            },
            CleanupEvent::Sealed { reaped, descendants_sealed } => CleanupEventView::Sealed {
                reaped: command_error::outcome_view(reaped),
                descendants_sealed,
            },
            CleanupEvent::HandedOff(worker) => {
                CleanupEventView::HandedOff(io_failure::call_view(worker))
            },
        }
    }
}

/// Whether an error says that the group could not be signalled for want of
/// permission.
pub open spec fn is_permission_denied(error: CommandErrorView) -> bool {
    match error {
        CommandErrorView::Kill(source) => command_group::permission_denied(source),
        _ => false,
    }
}

fn error_is_permission_denied(error: &CommandError) -> (result: bool)
    ensures
        result == is_permission_denied(error@),
{
    match error {
        CommandError::Kill(source) => group_signal_permission_denied(source),
        _ => false,
    }
}

/// The error of a live command that went over to the supervisor: why it could
/// not be ended, and what becomes of it.
pub open spec fn supervised(
    termination: CommandErrorView,
    wait: Option<CommandErrorView>,
    worker: Result<(), IoFailureView>,
) -> CommandErrorView {
    CommandErrorView::TerminationSupervised(
        termination.message() + (match wait {
            Some(source) => "; nonblocking reap inspection also failed ("@ + source.message()
                + ")"@,
            None => Seq::empty(),
        }) + "; "@ + (match worker {
            Ok(()) => {
                "a live command may remain while the process-wide supervisor retries termination and retains reaping ownership"@
            },
            Err(source) => "the process-wide supervisor worker is unavailable ("@ + source.message
                + "); live-command ownership remains retained and the next command preflight will retry worker startup"@,
        }),
    )
}

/// Executable form of [`supervised`].
pub fn supervised_error(
    termination: &CommandError,
    wait: Option<&CommandError>,
    worker: Result<(), IoFailure>,
) -> (error: CommandError)
    ensures
        error@ == supervised(
            termination@,
            match wait {
                Some(source) => Some(source@),
                None => None,
            },
            io_failure::call_view(worker),
        ),
{
    let wait_context = match wait {
        Some(source) => concat3(
            "; nonblocking reap inspection also failed (",
            source.message().as_str(),
            ")",
        ),
        None => String::new(),
    };
    let supervision = match worker {
        Ok(()) => {
            "a live command may remain while the process-wide supervisor retries termination and retains reaping ownership".to_owned()
        },
        Err(source) => concat3(
            "the process-wide supervisor worker is unavailable (",
            source.message.as_str(),
            "); live-command ownership remains retained and the next command preflight will retry worker startup",
        ),
    };
    let beginning = concat3(termination.message().as_str(), wait_context.as_str(), "; ");
    CommandError::TerminationSupervised(concat2(beginning.as_str(), supervision.as_str()))
}

/// The mathematical value of a [`Cleanup`].
pub struct CleanupView {
    pub phase: CleanupPhase,
    /// The error that the cleanup reports, unless it is taken back.
    pub first_error: Option<CommandErrorView>,
    pub wait_error: Option<CommandErrorView>,
    pub completion: Option<CommandCleanupCompletion>,
}

impl CleanupView {
    pub open spec fn initial(state: CommandCleanupState) -> CleanupView {
        CleanupView {
            phase: match state {
                CommandCleanupState::AlreadyReaped => CleanupPhase::Finished,
                CommandCleanupState::TerminateAndReap => CleanupPhase::Terminate,
            },
            first_error: None,
            wait_error: None,
            completion: match state {
                CommandCleanupState::AlreadyReaped => Some(
                    CommandCleanupCompletion::AlreadyReaped,
                ),
                CommandCleanupState::TerminateAndReap => None,
            },
        }
    }

    /// What holds in every state: a cleanup is over with an error or with the
    /// end of the command, and a live command is handed off with an error.
    pub open spec fn well_formed(self) -> bool {
        &&& self.phase == CleanupPhase::HandOff ==> self.first_error is Some
        &&& self.phase == CleanupPhase::Finished ==> self.first_error is Some
            || self.completion is Some
    }

    /// The first error, or `error` where there is none yet.
    pub open spec fn hand_off(self, error: CommandErrorView) -> CleanupView {
        CleanupView {
            phase: CleanupPhase::HandOff,
            first_error: match self.first_error {
                Some(first) => Some(first),
                None => Some(error),
            },
            ..self
        }
    }

    /// Behind the reap. A signal that was refused does not count when every
    /// tracked descendant is known to be gone.
    pub open spec fn reaped(self, status: ExitOutcome, descendants_sealed: bool) -> CleanupView {
        CleanupView {
            phase: CleanupPhase::Finished,
            first_error: match self.first_error {
                Some(first) => if descendants_sealed && is_permission_denied(first) {
                    None
                } else {
                    Some(first)
                },
                None => None,
            },
            completion: Some(
                CommandCleanupCompletion::Reaped {
                    status,
                    tracked_descendants_sealed: descendants_sealed,
                },
            ),
            ..self
        }
    }

    /// How an event moves the cleanup on. An event that it does not wait for
    /// leaves it where it is.
    pub open spec fn step(self, event: CleanupEventView) -> CleanupView {
        match (self.phase, event) {
            (CleanupPhase::Terminate, CleanupEventView::Terminated(sent)) => CleanupView {
                phase: CleanupPhase::AwaitLeader,
                first_error: match sent {
                    Ok(()) => None,
                    Err(error) => Some(error),
                },
                ..self
            },
            (CleanupPhase::AwaitLeader, CleanupEventView::LeaderEnded(Ok(true))) => CleanupView {
                phase: CleanupPhase::SealAndReap,
                ..self
            },
            (CleanupPhase::AwaitLeader, CleanupEventView::LeaderEnded(Ok(false))) => self.hand_off(
                CommandErrorView::TerminationUnverified,
            ),
            (CleanupPhase::AwaitLeader, CleanupEventView::LeaderEnded(Err(wait))) => CleanupView {
                wait_error: Some(wait),
                ..self.hand_off(CommandErrorView::TerminationUnverified)
            },
            (
                CleanupPhase::SealAndReap,
                CleanupEventView::Sealed { reaped: Ok(status), descendants_sealed },
            ) => self.reaped(status, descendants_sealed),
            (
                CleanupPhase::SealAndReap,
                CleanupEventView::Sealed { reaped: Err(source), descendants_sealed },
            ) => self.hand_off(source),
            (CleanupPhase::HandOff, CleanupEventView::HandedOff(worker)) => {
                match self.first_error {
                    Some(first) => CleanupView {
                        phase: CleanupPhase::Finished,
                        first_error: Some(supervised(first, self.wait_error, worker)),
                        ..self
                    },
                    None => self,
                }
            },
            _ => self,
        }
    }
}

/// The cleanup of a command.
pub struct Cleanup {
    phase: CleanupPhase,
    first_error: Option<CommandError>,
    wait_error: Option<CommandError>,
    completion: Option<CommandCleanupCompletion>,
}

/// The value of an optional error.
pub open spec fn optional_error(error: Option<CommandError>) -> Option<CommandErrorView> {
    match error {
        Some(source) => Some(source@),
        None => None,
    }
}

impl View for Cleanup {
    type V = CleanupView;

    closed spec fn view(&self) -> CleanupView {
        CleanupView {
            phase: self.phase,
            first_error: optional_error(self.first_error),
            wait_error: optional_error(self.wait_error),
            completion: self.completion,
        }
    }
}

impl Cleanup {
    /// The cleanup of a command that was or was not reaped.
    pub fn new(state: CommandCleanupState) -> (cleanup: Cleanup)
        ensures
            cleanup@ == CleanupView::initial(state),
            cleanup@.well_formed(),
    {
        match state {
            CommandCleanupState::AlreadyReaped => Cleanup {
                phase: CleanupPhase::Finished,
                first_error: None,
                wait_error: None,
                completion: Some(CommandCleanupCompletion::AlreadyReaped),
            },
            CommandCleanupState::TerminateAndReap => Cleanup {
                phase: CleanupPhase::Terminate,
                first_error: None,
                wait_error: None,
                completion: None,
            },
        }
    }

    /// What the cleanup waits for.
    pub fn phase(&self) -> (phase: CleanupPhase)
        ensures
            phase == self@.phase,
    {
        self.phase
    }

    fn hand_off(&mut self, error: CommandError)
        ensures
            final(self)@ == old(self)@.hand_off(error@),
    {
        self.phase = CleanupPhase::HandOff;
        if self.first_error.is_none() {
            self.first_error = Some(error);
        }
    }

    fn reaped(&mut self, status: ExitOutcome, descendants_sealed: bool)
        ensures
            final(self)@ == old(self)@.reaped(status, descendants_sealed),
    {
        let refused = match &self.first_error {
            Some(error) => error_is_permission_denied(error),
            None => false,
        };
        if descendants_sealed && refused {
            self.first_error = None;
        }
        self.completion = Some(
            CommandCleanupCompletion::Reaped {
                status,
                tracked_descendants_sealed: descendants_sealed,
            },
        );
        self.phase = CleanupPhase::Finished;
    }

    /// Takes an event.
    pub fn advance(&mut self, event: CleanupEvent)
        requires
            old(self)@.well_formed(),
        ensures
            final(self)@ == old(self)@.step(event@),
            final(self)@.well_formed(),
    {
        match (self.phase, event) {
            (CleanupPhase::Terminate, CleanupEvent::Terminated(sent)) => {
                self.first_error = match sent {
                    Ok(()) => None,
                    Err(error) => Some(error),
                };
                self.phase = CleanupPhase::AwaitLeader;
            },
            (CleanupPhase::AwaitLeader, CleanupEvent::LeaderEnded(Ok(true))) => {
                self.phase = CleanupPhase::SealAndReap;
            },
            (CleanupPhase::AwaitLeader, CleanupEvent::LeaderEnded(Ok(false))) => {
                self.hand_off(CommandError::TerminationUnverified);
            },
            (CleanupPhase::AwaitLeader, CleanupEvent::LeaderEnded(Err(wait))) => {
                self.hand_off(CommandError::TerminationUnverified);
                self.wait_error = Some(wait);
            },
            (
                CleanupPhase::SealAndReap,
                CleanupEvent::Sealed { reaped: Ok(status), descendants_sealed },
            ) => {
                self.reaped(status, descendants_sealed);
            },
            (CleanupPhase::SealAndReap, CleanupEvent::Sealed { reaped: Err(source), .. }) => {
                self.hand_off(source);
            },
            (CleanupPhase::HandOff, CleanupEvent::HandedOff(worker)) => {
                if let Some(first) = &self.first_error {
                    let error = supervised_error(first, self.wait_error.as_ref(), worker);
                    self.first_error = Some(error);
                    self.phase = CleanupPhase::Finished;
                }
            },
            _ => {},
        }
    }

    /// How the cleanup ended.
    pub fn outcome(self) -> (outcome: Result<CommandCleanupCompletion, CommandError>)
        requires
            self@.well_formed(),
            self@.phase == CleanupPhase::Finished,
        ensures
            match outcome {
                Ok(completion) => self@.first_error is None && self@.completion == Some(completion),
                Err(error) => self@.first_error == Some(error@),
            },
    {
        match self.first_error {
            Some(error) => Err(error),
            None => match self.completion {
                Some(completion) => Ok(completion),
                None => Ok(CommandCleanupCompletion::AlreadyReaped),
            },
        }
    }
}

/// What the control and the cleanup of a command say together: the end of the
/// command that the cleanup saw, or an error. A termination that the control
/// could not verify is made good by a cleanup that saw every tracked descendant
/// end and all output read.
pub open spec fn reconciled(
    control: Option<CommandErrorView>,
    cleanup: Result<CommandCleanupCompletion, CommandErrorView>,
    cancellation_observed: bool,
    streams_done: bool,
) -> Result<Option<ExitOutcome>, CommandErrorView> {
    match (control, cleanup) {
        (_, Err(error)) => Err(error),
        (None, Ok(CommandCleanupCompletion::AlreadyReaped)) => Ok(None),
        (None, Ok(CommandCleanupCompletion::Reaped { status, .. })) => Ok(Some(status)),
        (Some(error), Ok(CommandCleanupCompletion::AlreadyReaped)) => Err(error),
        (
            Some(error),
            Ok(CommandCleanupCompletion::Reaped { status, tracked_descendants_sealed }),
        ) => if tracked_descendants_sealed && streams_done && (error
            == CommandErrorView::TerminationUnverified || (cancellation_observed
            && is_permission_denied(error))) {
            Ok(Some(status))
        } else {
            Err(error)
        },
    }
}

/// Executable form of [`reconciled`].
pub fn reconcile_control_and_cleanup(
    control: Result<(), CommandError>,
    cleanup: Result<CommandCleanupCompletion, CommandError>,
    cancellation_observed: bool,
    streams_done: bool,
) -> (status: Result<Option<ExitOutcome>, CommandError>)
    ensures
        command_error::outcome_view(status) == reconciled(
            match control {
                Ok(()) => None,
                Err(error) => Some(error@),
            },
            command_error::outcome_view(cleanup),
            cancellation_observed,
            streams_done,
        ),
{
    match (control, cleanup) {
        (_, Err(error)) => Err(error),
        (Ok(()), Ok(CommandCleanupCompletion::AlreadyReaped)) => Ok(None),
        (Ok(()), Ok(CommandCleanupCompletion::Reaped { status, .. })) => Ok(Some(status)),
        (Err(error), Ok(CommandCleanupCompletion::AlreadyReaped)) => Err(error),
        (
            Err(error),
            Ok(CommandCleanupCompletion::Reaped { status, tracked_descendants_sealed }),
        ) => {
            let unverified = matches!(error, CommandError::TerminationUnverified);
            if tracked_descendants_sealed && streams_done && (unverified || (cancellation_observed
                && error_is_permission_denied(&error))) {
                Ok(Some(status))
            } else {
                Err(error)
            }
        },
    }
}

/// What the drain of the output waits for.
#[derive(Clone, Copy, Debug, PartialEq, Eq, Structural)]
pub enum DrainPhase {
    /// The time at which it begins.
    Begin,
    /// A read of a stream.
    Read(Channel),
    ReadClock,
    /// Something to happen within so many milliseconds.
    Wait(u64),
    Finished,
}

/// What was found for the drain of the output.
#[derive(Debug, PartialEq, Eq)]
pub enum DrainEvent {
    Clock(u64),
    Read(StreamRead),
    Waited(Result<(), CommandError>),
}

/// The mathematical value of a [`DrainEvent`].
pub enum DrainEventView {
    Clock(u64),
    Read(ReadView),
    Waited(Result<(), CommandErrorView>),
}

impl View for DrainEvent {
    type V = DrainEventView;

    open spec fn view(&self) -> DrainEventView {
        match *self {
            DrainEvent::Clock(now) => DrainEventView::Clock(now),
            DrainEvent::Read(read) => DrainEventView::Read(read@),
            DrainEvent::Waited(waited) => {
                DrainEventView::Waited(command_error::outcome_view(waited))
            },
        }
    }
}

/// The mathematical value of an [`OutputDrain`].
pub struct DrainView {
    pub output: PairView,
    pub deadline: u64,
    pub phase: DrainPhase,
    pub failure: Option<CommandErrorView>,
}

impl DrainView {
    pub open spec fn well_formed(self) -> bool {
        self.output.well_formed()
    }

    /// The reads of this turn, or what follows them: the drain is over when
    /// both ends were seen or a read failed.
    pub open spec fn reading(self) -> DrainView {
        DrainView {
            phase: match self.output.next_read() {
                Some(channel) => DrainPhase::Read(channel),
                None => if self.output.done() || self.output.error is Some {
                    DrainPhase::Finished
                } else {
                    DrainPhase::ReadClock
                },
            },
            ..self
        }
    }

    /// A new turn of reads.
    pub open spec fn begin_reads(self) -> DrainView {
        DrainView { output: self.output.turn(), ..self }.reading()
    }

    /// Behind a look at the clock.
    pub open spec fn after_clock(self, now: u64) -> DrainView {
        if self.deadline <= now {
            DrainView { phase: DrainPhase::Finished, ..self }
        } else if self.output.progressed() {
            self.begin_reads()
        } else {
            DrainView {
                phase: DrainPhase::Wait(
                    if self.deadline - now <= MAX_EXIT_POLL_INTERVAL {
                        (self.deadline - now) as u64
                    } else {
                        MAX_EXIT_POLL_INTERVAL
                    },
                ),
                ..self
            }
        }
    }

    /// How an event moves the drain on. An event that it does not wait for
    /// leaves it where it is.
    pub open spec fn step(self, event: DrainEventView) -> DrainView {
        match (self.phase, event) {
            (DrainPhase::Begin, DrainEventView::Clock(now)) => DrainView {
                deadline: command_seal::deadline_after(now, OUTPUT_DRAIN_GRACE),
                ..self
            }.begin_reads(),
            (DrainPhase::Read(_), DrainEventView::Read(read)) => DrainView {
                output: self.output.after_read(read),
                ..self
            }.reading(),
            (DrainPhase::ReadClock, DrainEventView::Clock(now)) => self.after_clock(now),
            (DrainPhase::Wait(_), DrainEventView::Waited(Ok(()))) => self.begin_reads(),
            (DrainPhase::Wait(_), DrainEventView::Waited(Err(error))) => DrainView {
                failure: Some(error),
                phase: DrainPhase::Finished,
                ..self
            },
            _ => self,
        }
    }
}

/// The drain of the output of a command that was reaped.
pub struct OutputDrain {
    output: OutputPair,
    deadline: u64,
    phase: DrainPhase,
    failure: Option<CommandError>,
}

impl View for OutputDrain {
    type V = DrainView;

    closed spec fn view(&self) -> DrainView {
        DrainView {
            output: self.output@,
            deadline: self.deadline,
            phase: self.phase,
            failure: optional_error(self.failure),
        }
    }
}

impl OutputDrain {
    /// The drain of two streams.
    pub fn new(output: OutputPair) -> (drain: OutputDrain)
        requires
            output@.well_formed(),
        ensures
            drain@ == (DrainView {
                output: output@,
                deadline: 0,
                phase: DrainPhase::Begin,
                failure: None,
            }),
            drain@.well_formed(),
    {
        OutputDrain { output, deadline: 0, phase: DrainPhase::Begin, failure: None }
    }

    /// What the drain waits for.
    pub fn phase(&self) -> (phase: DrainPhase)
        ensures
            phase == self@.phase,
    {
        self.phase
    }

    /// The streams as they were read so far.
    pub fn output(&self) -> (output: &OutputPair)
        ensures
            output@ == self@.output,
    {
        &self.output
    }

    fn reading(&mut self)
        ensures
            final(self)@ == old(self)@.reading(),
    {
        self.phase = match self.output.next_read() {
            Some(channel) => DrainPhase::Read(channel),
            None => if self.output.done() || self.output.has_error() {
                DrainPhase::Finished
            } else {
                DrainPhase::ReadClock
            },
        };
    }

    fn begin_reads(&mut self)
        requires
            old(self)@.well_formed(),
        ensures
            final(self)@ == old(self)@.begin_reads(),
            final(self)@.well_formed(),
    {
        self.output.begin_turn();
        self.reading();
    }

    /// Takes an event.
    pub fn advance(&mut self, event: DrainEvent)
        requires
            old(self)@.well_formed(),
        ensures
            final(self)@ == old(self)@.step(event@),
            final(self)@.well_formed(),
    {
        match (self.phase, event) {
            (DrainPhase::Begin, DrainEvent::Clock(now)) => {
                self.deadline = add_time(now, OUTPUT_DRAIN_GRACE);
                self.begin_reads();
            },
            (DrainPhase::Read(_), DrainEvent::Read(read)) => {
                self.output.after_read(read);
                self.reading();
            },
            (DrainPhase::ReadClock, DrainEvent::Clock(now)) => {
                if self.deadline <= now {
                    self.phase = DrainPhase::Finished;
                } else if self.output.progressed() {
                    self.begin_reads();
                } else {
                    let remaining: u64 = self.deadline - now;
                    self.phase = DrainPhase::Wait(
                        if remaining <= MAX_EXIT_POLL_INTERVAL {
                            remaining
                        } else {
                            MAX_EXIT_POLL_INTERVAL
                        },
                    );
                }
            },
            (DrainPhase::Wait(_), DrainEvent::Waited(Ok(()))) => {
                self.begin_reads();
            },
            (DrainPhase::Wait(_), DrainEvent::Waited(Err(error))) => {
                self.failure = Some(error);
                self.phase = DrainPhase::Finished;
            },
            _ => {},
        }
    }

    /// The streams behind the drain, or why it broke off.
    pub fn outcome(self) -> (outcome: Result<OutputPair, CommandError>)
        ensures
            match outcome {
                Ok(output) => self@.failure is None && output@ == self@.output,
                Err(error) => self@.failure == Some(error@),
            },
    {
        match self.failure {
            Some(error) => Err(error),
            None => Ok(self.output),
        }
    }
}

} // verus!

//! Ending the process group of a command: the signals, the wait for its
//! leader, and the proof that no descendant is left before the leader is
//! reaped.

use crate::command_control::ExitOutcome;
use crate::command_error;
use crate::command_error::{CommandError, CommandErrorView};
use crate::io_failure;
use crate::io_failure::{ErrorKind, IoFailure, IoFailureView};
use crate::text::concat3;
use vstd::prelude::*;

verus! {

/// How often a group is signalled before its descendants are given up.
pub const TERMINAL_GROUP_SEAL_ROUNDS: usize = 8;

/// How often the processor is yielded before each signal.
pub const FOREGROUND_EXIT_SETTLE_YIELDS: usize = 8;

/// How long one look at the descendant token waits, in milliseconds.
pub const DESCENDANT_TOKEN_WAIT_SLICE: u64 = 5;

/// The longest sleep between two looks at a leader, in milliseconds.
pub const MAX_LEADER_POLL_INTERVAL: u64 = 10;

/// The number of `rustix::io::Errno::PERM`, which is 1 on Linux and macOS, where
/// commands are run.
#[verifier::external_body]
fn permission_error_number() -> (number: i32)
    ensures
        number == 1,
{
    rustix::io::Errno::PERM.raw_os_error()
}

/// The number of `rustix::io::Errno::SRCH`, which is 3 on Linux and macOS, where
/// commands are run.
#[verifier::external_body]
fn missing_process_error_number() -> (number: i32)
    ensures
        number == 3,
{
    rustix::io::Errno::SRCH.raw_os_error()
}

/// Whether a signal was refused for want of permission.
pub open spec fn permission_denied(source: IoFailureView) -> bool {
    source.kind == ErrorKind::PermissionDenied || source.os_error == Some(1i32)
}

/// Whether a failed call says that there is no such process.
pub open spec fn missing_process(source: IoFailureView) -> bool {
    source.os_error == Some(3i32)
}

/// Whether a failed signal says that the group is gone.
pub open spec fn already_exited(source: IoFailureView) -> bool {
    source.kind == ErrorKind::NotFound || source.kind == ErrorKind::InvalidInput
        || missing_process(source)
}

/// Executable form of [`permission_denied`].
pub fn group_signal_permission_denied(source: &IoFailure) -> (result: bool)
    ensures
        result == permission_denied(source@),
{
    if source.kind == ErrorKind::PermissionDenied {
        return true;
    }
    match source.os_error {
        Some(number) => number == permission_error_number(),
        None => false,
    }
}

fn is_missing_process(source: &IoFailure) -> (result: bool)
    ensures
        result == missing_process(source@),
{
    match source.os_error {
        Some(number) => number == missing_process_error_number(),
        None => false,
    }
}

/// Executable form of [`already_exited`].
pub fn group_already_exited(source: &IoFailure) -> (result: bool)
    ensures
        result == already_exited(source@),
{
    source.kind == ErrorKind::NotFound || source.kind == ErrorKind::InvalidInput
        || is_missing_process(source)
}

/// The number by which the group of a process is signalled.
pub open spec fn group_number(id: u32) -> Result<i32, IoFailureView> {
    if id > i32::MAX {
        Err(
            IoFailureView {
                kind: ErrorKind::InvalidInput,
                message: "command process-group id does not fit in i32"@,
                os_error: None,
            },
        )
    } else if id == 0 {
        Err(
            IoFailureView {
                kind: ErrorKind::InvalidInput,
                message: "command process-group id was zero"@,
                os_error: None,
            },
        )
    } else {
        Ok(id as i32)
    }
}

/// Executable form of [`group_number`].
pub fn process_group_number(id: u32) -> (number: Result<i32, IoFailure>)
    ensures
        io_failure::call_view(number) == group_number(id),
{
    if id > 0x7fff_ffff {
        Err(
            IoFailure::new(
                ErrorKind::InvalidInput,
                "command process-group id does not fit in i32",
            ),
        )
    } else if id == 0 {
        Err(IoFailure::new(ErrorKind::InvalidInput, "command process-group id was zero"))
    } else {
        Ok(id as i32)
    }
}

/// The number by which the group of a process is looked at, where it has one.
pub fn process_group_id(id: u32) -> (number: Result<i32, CommandError>)
    ensures
        match (number, group_number(id)) {
            (Ok(found), Ok(wanted)) => found == wanted,
            (Err(error), Err(source)) => error@ == CommandErrorView::Kill(source),
            _ => false,
        },
{
    match process_group_number(id) {
        Ok(number) => Ok(number),
        Err(source) => Err(CommandError::Kill(source)),
    }
}

/// What a look at a leader, which does not reap it, settles: nothing where it
/// was interrupted.
pub fn after_leader_wait(ended: Result<bool, IoFailure>) -> (found: Option<
    Result<bool, CommandError>,
>)
    ensures
        match ended {
            Ok(value) => found == Some(Ok::<bool, CommandError>(value)),
            Err(source) => if source@.kind == ErrorKind::Interrupted {
                found is None
            } else {
                found matches Some(Err(error)) && error@ == CommandErrorView::Wait(source@)
            },
        },
{
    match ended {
        Ok(value) => Some(Ok(value)),
        Err(source) => if source.is_interrupted() {
            None
        } else {
            Some(Err(CommandError::Wait(source)))
        },
    }
}

/// What a wait that reaps a leader settles: nothing where it was interrupted or
/// found no leader that had ended.
pub fn after_reap(reaped: Result<Option<ExitOutcome>, IoFailure>) -> (found: Option<
    Result<ExitOutcome, CommandError>,
>)
    ensures
        match reaped {
            Ok(Some(status)) => found == Some(Ok::<ExitOutcome, CommandError>(status)),
            Ok(None) => found is None,
            Err(source) => if source@.kind == ErrorKind::Interrupted {
                found is None
            } else {
                found matches Some(Err(error)) && error@ == CommandErrorView::Wait(source@)
            },
        },
{
    match reaped {
        Ok(Some(status)) => Some(Ok(status)),
        Ok(None) => None,
        Err(source) => if source.is_interrupted() {
            None
        } else {
            Some(Err(CommandError::Wait(source)))
        },
    }
}

/// One poll of the streams: an interrupted one ends as one in which nothing
/// happened, so that its caller can look at its deadline.
pub fn poll_streams_once(polled: Result<(), IoFailure>) -> (outcome: Result<(), CommandError>)
    ensures
        match polled {
            Ok(()) => outcome == Ok::<(), CommandError>(()),
            Err(source) => if source@.kind == ErrorKind::Interrupted {
                outcome == Ok::<(), CommandError>(())
            } else {
                outcome matches Err(error) && error@ == CommandErrorView::ReadOutput(source@)
            },
        },
{
    match polled {
        Ok(()) => Ok(()),
        Err(source) => if source.is_interrupted() {
            Ok(())
        } else {
            Err(CommandError::ReadOutput(source))
        },
    }
}

/// How far the termination of a group has come.
#[derive(Clone, Copy, Debug, PartialEq, Eq, Structural)]
pub enum TerminationPhase {
    /// The group is killed by its handle.
    KillGroup,
    /// The group is signalled by its number.
    SignalGroup,
    Finished,
}

/// The error of a group that could be killed in neither way.
pub open spec fn both_failed(wrapper: IoFailureView, fallback: IoFailureView) -> CommandErrorView {
    CommandErrorView::Kill(
        IoFailureView {
            kind: if permission_denied(wrapper) || permission_denied(fallback) {
                ErrorKind::PermissionDenied
            } else {
                fallback.kind
            },
            message: "command-group wrapper failed ("@ + wrapper.message
                + "); direct process-group termination also failed ("@ + fallback.message + ")"@,
            os_error: None,
        },
    )
}

fn combined_failure(wrapper: &IoFailure, fallback: &IoFailure) -> (error: CommandError)
    ensures
        error@ == both_failed(wrapper@, fallback@),
{
    let kind = if group_signal_permission_denied(wrapper) || group_signal_permission_denied(
        fallback,
    ) {
        ErrorKind::PermissionDenied
    } else {
        fallback.kind
    };
    let beginning = concat3(
        "command-group wrapper failed (",
        wrapper.message.as_str(),
        "); direct process-group termination also failed (",
    );
    let message = concat3(beginning.as_str(), fallback.message.as_str(), ")");
    CommandError::Kill(IoFailure::new(kind, message.as_str()))
}

/// The mathematical value of a [`GroupTermination`].
pub struct TerminationView {
    pub id: u32,
    pub phase: TerminationPhase,
    /// Why the kill by the handle failed, once it has.
    pub wrapper: Option<IoFailureView>,
    /// Why the termination failed, once it has.
    pub failure: Option<CommandErrorView>,
}

impl TerminationView {
    pub open spec fn well_formed(self) -> bool {
        &&& self.phase == TerminationPhase::SignalGroup ==> self.wrapper is Some && group_number(
            self.id,
        ) is Ok
        &&& self.failure is Some ==> self.phase == TerminationPhase::Finished
    }

    pub open spec fn finished(self) -> TerminationView {
        TerminationView { phase: TerminationPhase::Finished, ..self }
    }

    pub open spec fn failed(self, error: CommandErrorView) -> TerminationView {
        TerminationView { phase: TerminationPhase::Finished, failure: Some(error), ..self }
    }

    /// How the outcome of a signal moves the termination on. An interrupted
    /// signal is sent again, and a group that is gone needs none.
    pub open spec fn step(self, sent: Result<(), IoFailureView>) -> TerminationView {
        match (self.phase, sent) {
            (TerminationPhase::KillGroup, Ok(())) => self.finished(),
            (TerminationPhase::KillGroup, Err(source)) => if source.kind
                == ErrorKind::Interrupted {
                self
            } else if already_exited(source) {
                self.finished()
            } else {
                let next = TerminationView { wrapper: Some(source), ..self };
                match group_number(self.id) {
                    Ok(_) => TerminationView { phase: TerminationPhase::SignalGroup, ..next },
                    Err(fallback) => next.failed(both_failed(source, fallback)),
                }
            },
            (TerminationPhase::SignalGroup, Ok(())) => self.finished(),
            (TerminationPhase::SignalGroup, Err(source)) => if source.kind
                == ErrorKind::Interrupted {
                self
            } else if missing_process(source) {
                self.finished()
            } else {
                match self.wrapper {
                    Some(wrapper) => self.failed(both_failed(wrapper, source)),
                    None => self,
                }
            },
            (TerminationPhase::Finished, _) => self,
        }
    }

    /// How the termination ended.
    pub open spec fn outcome(self) -> Result<(), CommandErrorView> {
        match self.failure {
            Some(error) => Err(error),
            None => Ok(()),
        }
    }
}

/// The termination of a process group.
pub struct GroupTermination {
    id: u32,
    phase: TerminationPhase,
    wrapper: Option<IoFailure>,
    failure: Option<CommandError>,
}

impl View for GroupTermination {
    type V = TerminationView;

    closed spec fn view(&self) -> TerminationView {
        TerminationView {
            id: self.id,
            phase: self.phase,
            wrapper: match self.wrapper {
                Some(source) => Some(source@),
                None => None,
            },
            failure: match self.failure {
                Some(error) => Some(error@),
                None => None,
            },
        }
    }
}

impl GroupTermination {
    /// The termination of the group that the process `id` leads.
    pub fn new(id: u32) -> (termination: GroupTermination)
        ensures
            termination@ == (TerminationView {
                id,
                phase: TerminationPhase::KillGroup,
                wrapper: None,
                failure: None,
            }),
            termination@.well_formed(),
    {
        GroupTermination { id, phase: TerminationPhase::KillGroup, wrapper: None, failure: None }
    }

    /// How far it has come.
    pub fn phase(&self) -> (phase: TerminationPhase)
        ensures
            phase == self@.phase,
    {
        self.phase
    }

    /// Takes the outcome of the signal that the phase asks for.
    pub fn advance(&mut self, sent: Result<(), IoFailure>)
        requires
            old(self)@.well_formed(),
        ensures
            final(self)@ == old(self)@.step(io_failure::call_view(sent)),
            final(self)@.well_formed(),
    {
        match (self.phase, sent) {
            (TerminationPhase::KillGroup, Ok(())) => {
                self.phase = TerminationPhase::Finished;
            },
            (TerminationPhase::KillGroup, Err(source)) => {
                if source.is_interrupted() {
                    return;
                }
                if group_already_exited(&source) {
                    self.phase = TerminationPhase::Finished;
                    return;
                }
                match process_group_number(self.id) {
                    Ok(_) => {
                        self.phase = TerminationPhase::SignalGroup;
                    },
                    Err(fallback) => {
                        self.failure = Some(combined_failure(&source, &fallback));
                        self.phase = TerminationPhase::Finished;
                    },
                }
                self.wrapper = Some(source);
            },
            (TerminationPhase::SignalGroup, Ok(())) => {
                self.phase = TerminationPhase::Finished;
            },
            (TerminationPhase::SignalGroup, Err(source)) => {
                if source.is_interrupted() {
                    return;
                }
                if is_missing_process(&source) {
                    self.phase = TerminationPhase::Finished;
                    return;
                }
                if let Some(wrapper) = &self.wrapper {
                    self.failure = Some(combined_failure(wrapper, &source));
                    self.phase = TerminationPhase::Finished;
                }
            },
            (TerminationPhase::Finished, _) => {},
        }
    }

    /// How the termination ended.
    pub fn outcome(self) -> (outcome: Result<(), CommandError>)
        ensures
            command_error::outcome_view(outcome) == self@.outcome(),
    {
        match self.failure {
            Some(error) => Err(error),
            None => Ok(()),
        }
    }
}

/// What remains of the outcome of a termination when the leader has ended: no
/// permission to signal the group means that no member can be signalled.
pub open spec fn after_leader_exit(terminated: Result<(), CommandErrorView>) -> Result<
    (),
    CommandErrorView,
> {
    match terminated {
        Err(CommandErrorView::Kill(source)) => if permission_denied(source) {
            Ok(())
        } else {
            terminated
        },
        _ => terminated,
    }
}

/// Executable form of [`after_leader_exit`].
pub fn terminate_signal_compatible_group_after_leader_exit(
    terminated: Result<(), CommandError>,
) -> (outcome: Result<(), CommandError>)
    ensures
        command_error::outcome_view(outcome) == after_leader_exit(
            command_error::outcome_view(terminated),
        ),
{
    match terminated {
        Err(CommandError::Kill(source)) => if group_signal_permission_denied(&source) {
            Ok(())
        } else {
            Err(CommandError::Kill(source))
        },
        other => other,
    }
}

} // verus!

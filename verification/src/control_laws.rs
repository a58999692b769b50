//! How commands are started, stopped, waited for and cleaned up.

use crate::command_cleanup;
use crate::command_cleanup::{
    CleanupEventView, CleanupPhase, CleanupView, CommandCleanupCompletion, CommandCleanupState,
};
use crate::command_control;
use crate::command_control::{
    ControlAction, ControlEventView, ControlPhase, ControlView, ExitOutcome,
};
use crate::command_error::CommandErrorView;
use crate::command_group;
use crate::command_group::{TerminationPhase, TerminationView};
use crate::command_run::{Platform, StartEventView, StartPhase, StartView};
use crate::io_failure::{ErrorKind, IoFailureView};
use crate::text;
use vstd::prelude::*;

verus! {

/// A command that runs is terminated as soon as a look finds a request to stop, its
/// end is waited for, and it is reaped where it has ended.
pub proof fn law_cancelled_commands_are_terminated(control: ControlView, status: ExitOutcome)
    requires
        control.phase == ControlPhase::PollCancellation,
        !control.cancelled,
        control.status is None,
    ensures
        ({
            let stopped = control.step(ControlEventView::Cancellation(true));
            let killed = stopped.step(ControlEventView::Done(Ok(())));
            let ended = killed.step(ControlEventView::Observed(Ok(true)));
            let alive = killed.step(ControlEventView::Observed(Ok(false)));
            let reaped = ended.step(ControlEventView::Reaped(Ok(status)));
            &&& stopped.cancelled
            &&& stopped.action() == ControlAction::TerminateGroup
            &&& killed.action() is ConfirmLeader
            &&& ended.action() == ControlAction::SealAndReap
            &&& alive.action() == ControlAction::ReadClock && alive.status is None
            &&& reaped.action() == ControlAction::ReadClock && reaped.status == Some(status)
        }),
{
}

/// A command is cancelled by a look that finds a request to stop, and by nothing else;
/// its group is terminated only then, and once cancelled it stays so.
pub proof fn law_only_requests_cancel(control: ControlView, event: ControlEventView)
    ensures
        !control.cancelled && control.step(event).cancelled ==> event
            == ControlEventView::Cancellation(true) && control.phase
            == ControlPhase::PollCancellation,
        control.cancelled ==> control.step(event).cancelled,
        control.step(event).action() == ControlAction::TerminateGroup && control.phase
            != ControlPhase::Terminate ==> event == ControlEventView::Cancellation(true)
            && !control.cancelled,
{
}

/// The control of a command comes to its end without an error only where the command
/// has ended and all its output is read, or where a clock says that 250 milliseconds
/// have gone by since it was cancelled or given up.
pub proof fn law_controls_end_in_time(control: ControlView, event: ControlEventView)
    requires
        control.phase != ControlPhase::Finished,
        control.failure is None,
        control.step(event).phase == ControlPhase::Finished,
        control.step(event).failure is None,
    ensures
        ({
            let after = control.step(event);
            ||| after.status is Some && after.output.done()
            ||| {
                &&& control.phase == ControlPhase::CheckDeadlines
                &&& event matches ControlEventView::Clock(now)
                &&& control.forced_at matches Some(forced)
                &&& now >= forced + 250
            }
        }),
{
}

/// A command that has ended is given up as incomplete only where a clock says that
/// its output has stayed open for 250 milliseconds.
pub proof fn law_open_output_is_given_time(control: ControlView, event: ControlEventView)
    requires
        !control.output_incomplete,
        control.step(event).output_incomplete,
    ensures
        control.status is Some,
        !control.output.done() || control.phase == ControlPhase::CheckDeadlines,
        event matches ControlEventView::Clock(now) && (control.drain_started_at matches Some(
            started,
        ) && now >= started + 250),
        control.step(event).forced_at == Some(event->Clock_0),
{
}

/// Waits for a command are short behind output, and twice as long behind none, up to
/// 50 milliseconds.
pub proof fn law_waits_grow(current: u64, made_progress: bool)
    ensures
        made_progress ==> command_control::poll_interval(current, made_progress) == 1,
        !made_progress && current <= 25 ==> command_control::poll_interval(current, made_progress)
            == 2 * current,
        !made_progress && current > 25 ==> command_control::poll_interval(current, made_progress)
            == 50,
{
}

/// A command is started step by step, each step only where the one before it was
/// done: it is not to stop, its processes can be tracked, the supervisor has a place,
/// the workspace is still the same, the token is made, the process is spawned, and its
/// output can be read.
pub proof fn law_commands_are_started_in_order(start: StartView)
    requires
        start.phase == StartPhase::PollCancellation,
        start.platform == Platform::Linux || start.platform == Platform::MacOs,
    ensures
        ({
            let done = StartEventView::Done(Ok(()));
            let first = start.step(StartEventView::Cancellation(false));
            let second = first.step(StartEventView::Supervised(Ok(())));
            let third = second.step(done);
            let fourth = third.step(done);
            let fifth = fourth.step(done);
            let started = fifth.step(done);
            &&& first.phase == StartPhase::Supervise
            &&& second.phase == StartPhase::BindWorkspace
            &&& third.phase == StartPhase::PrepareToken
            &&& fourth.phase == StartPhase::Spawn
            &&& fifth.phase == StartPhase::ConfigureOutput
            &&& started.phase == StartPhase::Started
            &&& started.failure == start.failure
        }),
{
}

/// A start that fails at a step fails with what that step says, and nothing is spawned
/// behind it; a command that was spawned, but whose output cannot be read, is cleaned
/// up first.
pub proof fn law_failed_starts_say_why(start: StartView, source: IoFailureView)
    ensures
        start.phase == StartPhase::PollCancellation ==> start.step(
            StartEventView::Cancellation(true),
        ).failure == Some(CommandErrorView::Cancelled),
        start.phase == StartPhase::PollCancellation && start.platform != Platform::Linux
            && start.platform != Platform::MacOs ==> start.step(
            StartEventView::Cancellation(false),
        ).failure == Some(CommandErrorView::UnsupportedProcessTracking),
        start.phase == StartPhase::BindWorkspace ==> start.step(
            StartEventView::Done(Err(source)),
        ).failure == Some(CommandErrorView::WorkspaceChanged(source)),
        start.phase == StartPhase::Spawn ==> start.step(
            StartEventView::Done(Err(source)),
        ).failure == Some(CommandErrorView::Spawn(source)),
        start.phase == StartPhase::PrepareToken || start.phase == StartPhase::ConfigureOutput
            ==> start.step(StartEventView::Done(Err(source))).failure == Some(
            CommandErrorView::ConfigureOutput(source),
        ),
        start.phase == StartPhase::BindWorkspace || start.phase == StartPhase::PrepareToken
            || start.phase == StartPhase::Spawn ==> start.step(
            StartEventView::Done(Err(source)),
        ).phase == StartPhase::Failed,
        start.phase == StartPhase::ConfigureOutput ==> start.step(
            StartEventView::Done(Err(source)),
        ).phase == StartPhase::CleanUp,
{
}

/// Only a spawned process is started: a start comes to spawn only behind its token,
/// and to be started only behind the output of what was spawned.
pub proof fn law_starts_skip_no_step(start: StartView, event: StartEventView)
    ensures
        start.step(event).phase == StartPhase::Started && start.phase != StartPhase::Started
            ==> start.phase == StartPhase::ConfigureOutput && event matches StartEventView::Done(Ok(_)),
        start.step(event).phase == StartPhase::Spawn && start.phase != StartPhase::Spawn
            ==> start.phase == StartPhase::PrepareToken && event matches StartEventView::Done(Ok(_)),
        start.step(event).phase == StartPhase::Supervise && start.phase != StartPhase::Supervise
            ==> event == StartEventView::Cancellation(false),
        start.phase == StartPhase::Failed || start.phase == StartPhase::Started ==> start.step(
            event,
        ) == start,
{
}

/// A group is terminated where it can be killed, by its handle or by its number, or is
/// gone already; it has failed to be where both ways failed otherwise. An interrupted
/// signal is sent again.
pub proof fn law_groups_are_killed_one_way_or_the_other(
    group: TerminationView,
    wrapper: IoFailureView,
    fallback: IoFailureView,
)
    requires
        group.phase == TerminationPhase::KillGroup,
        group.failure is None,
        1 <= group.id <= 0x7fff_ffff,
        wrapper.kind != ErrorKind::Interrupted && wrapper.kind != ErrorKind::NotFound
            && wrapper.kind != ErrorKind::InvalidInput && wrapper.os_error != Some(3i32),
        fallback.kind != ErrorKind::Interrupted && fallback.os_error != Some(3i32),
    ensures
        group.step(Ok(())).phase == TerminationPhase::Finished,
        group.step(Ok(())).outcome() is Ok,
        ({
            let second = group.step(Err(wrapper));
            &&& second.phase == TerminationPhase::SignalGroup
            &&& second.step(Ok(())).phase == TerminationPhase::Finished
            &&& second.step(Ok(())).outcome() is Ok
            &&& second.step(Err(fallback)).phase == TerminationPhase::Finished
            &&& second.step(Err(fallback)).outcome() matches Err(CommandErrorView::Kill(_))
        }),
{
}

/// A group that is gone needs no signal, and an interrupted signal is sent again.
pub proof fn law_gone_groups_need_no_signal(group: TerminationView, source: IoFailureView)
    requires
        group.phase != TerminationPhase::Finished,
        group.failure is None,
    ensures
        source.kind == ErrorKind::Interrupted ==> group.step(Err(source)) == group,
        source.kind != ErrorKind::Interrupted && source.os_error == Some(3i32) ==> group.step(
            Err(source),
        ).phase == TerminationPhase::Finished && group.step(Err(source)).outcome() is Ok,
        group.phase == TerminationPhase::KillGroup && (source.kind == ErrorKind::NotFound
            || source.kind == ErrorKind::InvalidInput) ==> group.step(Err(source)).phase
            == TerminationPhase::Finished && group.step(Err(source)).outcome() is Ok,
{
}

/// Whether a signal was refused for want of permission.
pub open spec fn is_refused(source: IoFailureView) -> bool {
    source.kind == ErrorKind::PermissionDenied || source.os_error == Some(1i32)
}

/// Once the leader of a group has ended, a signal that was refused is no failure, and
/// every other failure to kill the group is.
pub proof fn law_refused_signals_are_no_failure_behind_the_leader(source: IoFailureView)
    ensures
        command_group::after_leader_exit(Err(CommandErrorView::Kill(source))) is Ok <==> is_refused(
            source,
        ),
        command_group::after_leader_exit(Err(CommandErrorView::Wait(source))) == Err::<
            (),
            CommandErrorView,
        >(CommandErrorView::Wait(source)),
        command_group::after_leader_exit(Ok(())) is Ok,
{
}

/// A group that could be killed in neither way says why of both, and that it was refused
/// where one of them was.
pub proof fn law_failed_kills_say_why(wrapper: IoFailureView, fallback: IoFailureView)
    ensures
        command_group::both_failed(wrapper, fallback) matches CommandErrorView::Kill(source) && {
            &&& is_refused(wrapper) || is_refused(fallback) ==> source.kind
                == ErrorKind::PermissionDenied
            &&& !is_refused(wrapper) && !is_refused(fallback) ==> source.kind == fallback.kind
            &&& text::has_part(source.message, wrapper.message)
            &&& text::has_part(source.message, fallback.message)
            &&& source.os_error is None
        },
{
    let front = "command-group wrapper failed ("@;
    let middle = "); direct process-group termination also failed ("@;
    let whole = front + wrapper.message + middle + fallback.message + ")"@;
    let first = front.len() as int;
    let second = first + wrapper.message.len() + middle.len();
    assert(whole.subrange(first, first + wrapper.message.len()) =~= wrapper.message);
    assert(text::stands_at(whole, wrapper.message, first));
    assert(whole.subrange(second, second + fallback.message.len()) =~= fallback.message);
    assert(text::stands_at(whole, fallback.message, second));
}

/// A cleanup that reaped its command forgets a signal that was refused exactly where
/// every tracked descendant is known to be gone. Any other error it keeps.
pub proof fn law_refused_signals_are_made_good(
    cleanup: CleanupView,
    status: ExitOutcome,
    sealed: bool,
    error: CommandErrorView,
)
    requires
        cleanup.phase == CleanupPhase::SealAndReap,
        cleanup.first_error == Some(error),
    ensures
        ({
            let last = cleanup.step(
                CleanupEventView::Sealed { reaped: Ok(status), descendants_sealed: sealed },
            );
            &&& last.phase == CleanupPhase::Finished
            &&& last.first_error is None <==> sealed && (error matches CommandErrorView::Kill(
                source,
            ) && is_refused(source))
            &&& last.first_error is Some ==> last.first_error == Some(error)
        }),
{
}

/// A termination that could not be verified, or that was refused behind a request to
/// stop, is made good by a cleanup that saw every tracked descendant and all output end.
pub proof fn law_verified_cleanups_make_good(
    error: CommandErrorView,
    status: ExitOutcome,
    stopped: bool,
)
    ensures
        command_cleanup::reconciled(
            Some(error),
            Ok(CommandCleanupCompletion::Reaped { status, tracked_descendants_sealed: true }),
            stopped,
            true,
        ) is Ok <==> error is TerminationUnverified || stopped && (
        error matches CommandErrorView::Kill(source) && is_refused(source)),
{
}

/// What is said of a command that went over to the supervisor begins with why it could
/// not be ended, and then tells why waiting for it failed, where it did, and why the
/// supervisor does not work, where it does not.
pub proof fn law_supervised_commands_are_explained(
    termination: CommandErrorView,
    wait: CommandErrorView,
    worker: IoFailureView,
)
    ensures
        command_cleanup::supervised(termination, None, Ok(())) matches CommandErrorView::TerminationSupervised(message)
            && termination.message().is_prefix_of(message) && message.len()
            > termination.message().len(),
        command_cleanup::supervised(
            termination,
            Some(wait),
            Err(worker),
        ) matches CommandErrorView::TerminationSupervised(message) && {
            &&& termination.message().is_prefix_of(message)
            &&& text::has_part(message, wait.message())
            &&& text::has_part(message, worker.message)
        },
{
    reveal_strlit("; ");
    let why = termination.message();
    let short = command_cleanup::supervised(termination, None, Ok(()))->TerminationSupervised_0;
    assert(short.subrange(0, why.len() as int) =~= why);
    let one = "; nonblocking reap inspection also failed ("@;
    let two = "the process-wide supervisor worker is unavailable ("@;
    let long = command_cleanup::supervised(
        termination,
        Some(wait),
        Err(worker),
    )->TerminationSupervised_0;
    assert(long.subrange(0, why.len() as int) =~= why);
    let first = (why.len() + one.len()) as int;
    assert(long.subrange(first, first + wait.message().len()) =~= wait.message());
    assert(text::stands_at(long, wait.message(), first));
    let second = first + wait.message().len() + ")"@.len() + "; "@.len() + two.len();
    assert(long.subrange(second, second + worker.message.len()) =~= worker.message);
    assert(text::stands_at(long, worker.message, second));
}

/// The number of a group is that of its process, and 0 names none.
pub proof fn law_groups_have_the_number_of_their_process(id: u32)
    ensures
        1 <= id <= 0x7fff_ffff ==> command_group::group_number(id) == Ok::<i32, IoFailureView>(
            id as i32,
        ),
        id == 0 || id > 0x7fff_ffff ==> command_group::group_number(id) is Err,
{
}

/// A command that was reaped needs no cleanup, and any other is terminated, waited for
/// and reaped. A cleanup that goes well comes to the end that was reaped.
pub proof fn law_cleanups_end_the_command(status: ExitOutcome, sealed: bool)
    ensures
        ({
            let none = CleanupView::initial(CommandCleanupState::AlreadyReaped);
            let first = CleanupView::initial(CommandCleanupState::TerminateAndReap);
            let second = first.step(CleanupEventView::Terminated(Ok(())));
            let third = second.step(CleanupEventView::LeaderEnded(Ok(true)));
            let last = third.step(
                CleanupEventView::Sealed { reaped: Ok(status), descendants_sealed: sealed },
            );
            &&& none.phase == CleanupPhase::Finished && none.first_error is None
            &&& none.completion == Some(CommandCleanupCompletion::AlreadyReaped)
            &&& first.phase == CleanupPhase::Terminate
            &&& second.phase == CleanupPhase::AwaitLeader
            &&& third.phase == CleanupPhase::SealAndReap
            &&& last.phase == CleanupPhase::Finished && last.first_error is None
            &&& last.completion == Some(
                CommandCleanupCompletion::Reaped { status, tracked_descendants_sealed: sealed },
            )
        }),
{
}

/// A command that cannot be ended goes over to the supervisor, and the cleanup then
/// says so.
pub proof fn law_live_commands_go_to_the_supervisor(
    cleanup: CleanupView,
    error: CommandErrorView,
    worker: Result<(), IoFailureView>,
)
    requires
        cleanup.phase == CleanupPhase::AwaitLeader || cleanup.phase == CleanupPhase::SealAndReap,
    ensures
        ({
            let handed = if cleanup.phase == CleanupPhase::AwaitLeader {
                cleanup.step(CleanupEventView::LeaderEnded(Ok(false)))
            } else {
                cleanup.step(
                    CleanupEventView::Sealed { reaped: Err(error), descendants_sealed: false },
                )
            };
            &&& handed.phase == CleanupPhase::HandOff
            &&& handed.step(CleanupEventView::HandedOff(worker)).phase == CleanupPhase::Finished
            &&& handed.step(CleanupEventView::HandedOff(worker)).first_error matches Some(
                CommandErrorView::TerminationSupervised(_),
            )
        }),
{
}

/// Where control and cleanup agree, a command has the end that was reaped; an error of
/// the cleanup is never hidden, and one of the control only where a termination that
/// could not be verified, or signalled for want of permission behind a request to stop,
/// was made good by a cleanup that saw everything end.
pub proof fn law_errors_are_not_hidden(
    control: Option<CommandErrorView>,
    cleanup: Result<CommandCleanupCompletion, CommandErrorView>,
    stopped: bool,
    streams_done: bool,
)
    ensures
        ({
            let result = command_cleanup::reconciled(control, cleanup, stopped, streams_done);
            &&& cleanup matches Err(error) ==> result == Err::<
                Option<ExitOutcome>,
                CommandErrorView,
            >(error)
            &&& control is None && cleanup is Ok ==> result is Ok
            &&& result matches Ok(found) ==> match cleanup {
                Ok(CommandCleanupCompletion::Reaped { status, .. }) => found == Some(status),
                _ => found is None,
            }
            &&& control matches Some(error) ==> result is Ok ==> {
                &&& streams_done
                &&& cleanup matches Ok(
                    CommandCleanupCompletion::Reaped { tracked_descendants_sealed: true, .. },
                )
                &&& error is TerminationUnverified || stopped && error is Kill
            }
            &&& control matches Some(error) ==> cleanup is Ok ==> result is Err ==> result == Err::<
                Option<ExitOutcome>,
                CommandErrorView,
            >(error)
        }),
{
}

} // verus!

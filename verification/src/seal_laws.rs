//! How the end of a command is watched for, and how live commands are supervised.

use crate::capture::ReadView;
use crate::command_control::ExitOutcome;
use crate::command_error::CommandErrorView;
use crate::command_seal;
use crate::command_seal::{
    SealEventView, SealPhase, SealView, TokenEventView, TokenPhase, TokenWatchView, WatchEventView,
    WatchPhase, WatchView,
};
use crate::command_supervisor;
use crate::command_supervisor::{
    NextDue, SupervisedCommand, SupervisionAction, SupervisorView,
};
use crate::io_failure::{ErrorKind, IoFailureView};
use vstd::prelude::*;

verus! {

/// A watch says that a leader has ended only where a look saw it, and gives up only
/// where a clock says that its time has gone by.
pub proof fn law_leaders_are_given_their_time(watch: WatchView, event: WatchEventView)
    requires
        watch.phase != WatchPhase::Finished,
        !watch.ended,
        watch.failure is None,
    ensures
        watch.step(event).ended ==> watch.phase == WatchPhase::Observe && event
            == WatchEventView::Observed(Ok(true)) && watch.step(event).phase
            == WatchPhase::Finished,
        watch.step(event).failure matches Some(error) ==> event == WatchEventView::Observed(
            Err(error),
        ),
        watch.step(event).phase == WatchPhase::Finished && watch.step(event).outcome() == Ok::<
            bool,
            CommandErrorView,
        >(false) ==> (event matches WatchEventView::Clock(now) && now >= watch.started
            + watch.grace || watch.grace == 0),
{
}

/// A leader that has not ended is looked at again behind a sleep, as long as its time
/// has not gone by, and the sleeps grow twofold up to 10 milliseconds.
pub proof fn law_leaders_are_looked_at_again(watch: WatchView, now: u64)
    requires
        watch.phase == WatchPhase::Observe,
        now < watch.started + watch.grace,
        watch.grace > 0,
    ensures
        ({
            let asked = watch.step(WatchEventView::Observed(Ok(false)));
            let asleep = asked.step(WatchEventView::Clock(now));
            let again = asleep.step(WatchEventView::Slept);
            &&& asked.phase == WatchPhase::ReadClock
            &&& asleep.phase == WatchPhase::Sleep(watch.interval)
            &&& again.phase == WatchPhase::Observe
            &&& again.interval == if watch.interval < 5 {
                2 * watch.interval
            } else {
                10
            }
        }),
{
}

/// A token is closed exactly where its end is read; a read that finds bytes, or that
/// was interrupted or would wait, says that it is open.
pub proof fn law_tokens_are_closed_at_their_end(bytes: Seq<u8>, source: IoFailureView)
    ensures
        command_seal::token_reading(ReadView::End) == Ok::<bool, CommandErrorView>(true),
        bytes.len() > 0 ==> command_seal::token_reading(ReadView::Bytes(bytes)) == Ok::<
            bool,
            CommandErrorView,
        >(false),
        source.kind == ErrorKind::Interrupted || source.kind == ErrorKind::WouldBlock
            ==> command_seal::token_reading(ReadView::Failed(source)) == Ok::<
            bool,
            CommandErrorView,
        >(false),
        source.kind != ErrorKind::Interrupted && source.kind != ErrorKind::WouldBlock
            ==> command_seal::token_reading(ReadView::Failed(source)) == Err::<
            bool,
            CommandErrorView,
        >(CommandErrorView::ReadOutput(source)),
{
}

/// A watch for a token that stays open ends behind a last read, which is made only
/// where its time has gone by or something was seen to happen.
pub proof fn law_tokens_are_given_their_time(
    watch: TokenWatchView,
    first: u64,
    second: u64,
    open: Seq<u8>,
)
    requires
        watch.phase == TokenPhase::Observe,
        watch.deadline is None,
        watch.failure is None,
        open.len() > 0,
        first + watch.timeout <= u64::MAX,
        watch.timeout > 0,
        first <= second,
    ensures
        ({
            let asked = watch.step(TokenEventView::Read(ReadView::Bytes(open)));
            let polling = asked.step(TokenEventView::Clock(first));
            let again = polling.step(
                TokenEventView::Polled(
                    Err(
                        IoFailureView {
                            kind: ErrorKind::Interrupted,
                            message: Seq::empty(),
                            os_error: None,
                        },
                    ),
                ),
            );
            let later = again.step(TokenEventView::Clock(second));
            let last = polling.step(TokenEventView::Polled(Ok(())));
            let ended = last.step(TokenEventView::Read(ReadView::Bytes(open)));
            let closed = last.step(TokenEventView::Read(ReadView::End));
            &&& asked.phase == TokenPhase::ReadClock
            &&& polling.phase == TokenPhase::Poll(watch.timeout)
            &&& again.phase == TokenPhase::ReadClock
            &&& second >= first + watch.timeout ==> later.phase == TokenPhase::ObserveLast
            &&& second < first + watch.timeout ==> later.phase == TokenPhase::Poll(
                (first + watch.timeout - second) as u64,
            )
            &&& last.phase == TokenPhase::ObserveLast
            &&& ended.phase == TokenPhase::Finished && ended.outcome() == Ok::<
                bool,
                CommandErrorView,
            >(false)
            &&& closed.phase == TokenPhase::Finished && closed.outcome() == Ok::<
                bool,
                CommandErrorView,
            >(true)
        }),
{
}

/// A group with a token is reaped as soon as its token is seen closed behind a signal,
/// with the end that the reap gives; while it stays open the group is signalled again,
/// and behind the last round it is not reaped at all.
pub proof fn law_groups_are_sealed_before_the_reap(seal: SealView, status: ExitOutcome)
    requires
        seal.phase == SealPhase::Terminate,
        seal.has_token,
    ensures
        ({
            let signalled = seal.step(SealEventView::Terminated(Ok(())));
            let sealed = signalled.step(SealEventView::TokenClosed(Ok(true)));
            let reaped = sealed.step(SealEventView::Reaped(Ok(status)));
            let open = signalled.step(SealEventView::TokenClosed(Ok(false)));
            &&& signalled.phase == SealPhase::AwaitToken
            &&& sealed.phase == SealPhase::Reap && sealed.token_closed
            &&& reaped.phase == SealPhase::Finished && reaped.status == Some(status)
            &&& reaped.failure == seal.failure
            &&& open.phase == SealPhase::Terminate && open.round == seal.round + 1 || (open.failure
                == Some(CommandErrorView::TerminationUnverified) && open.phase
                == SealPhase::Finished && open.status == seal.status)
        }),
{
}

/// A live command is terminated as long as it has attempts left, and one that has ended
/// is sealed and reaped; it is looked at again when its delay has gone by, which grows
/// twofold up to 250 milliseconds.
pub proof fn law_live_commands_are_terminated(command: SupervisedCommand, now: u64)
    requires
        now + 250 <= u64::MAX,
        command.retry_delay <= 250,
    ensures
        command.wanted(true) == SupervisionAction::SealAndReap,
        command.termination_attempts_remaining > 0 ==> {
            let after = command.looked_at(now, false);
            &&& command.wanted(false) == SupervisionAction::TerminateGroup
            &&& after.termination_attempts_remaining == command.termination_attempts_remaining - 1
            &&& after.next_action == now + command.retry_delay
            &&& after.retry_delay == if 2 * command.retry_delay <= 250 {
                2 * command.retry_delay
            } else {
                250
            }
            &&& after.id == command.id
        },
        command.termination_attempts_remaining == 0 ==> {
            &&& command.wanted(false) == SupervisionAction::Nothing
            &&& command.looked_at(now, false).next_action == now + 250
        },
{
}

/// The worker of the supervisor has nothing to do only where no command waits, waits
/// only as long as none is due, and looks at a command that is due before any other.
pub proof fn law_due_commands_are_looked_at(supervisor: SupervisorView, now: u64, at: int)
    requires
        0 <= at < supervisor.queue.len(),
    ensures
        supervisor.next_due(now) != NextDue::Idle,
        supervisor.next_due(now) matches NextDue::Wait(time) ==> time > 0
            && supervisor.queue[at].next_action >= now + time,
        supervisor.next_due(now) matches NextDue::Due(command) ==> {
            &&& supervisor.queue.contains(command)
            &&& command.next_action <= now
            &&& command.next_action <= supervisor.queue[at].next_action
        },
        supervisor.queue[at].next_action <= now ==> supervisor.next_due(now) is Due,
{
    let count = supervisor.queue.len() as int;
    command_supervisor::law_first_due_is_first(supervisor.queue, count);
    let first = supervisor.queue[command_supervisor::first_due(supervisor.queue, count)];
    assert(first.no_later_than(supervisor.queue[at]));
}

/// A command is admitted exactly where the worker runs, the supervisor still admits
/// commands, and one of its places is free.
pub proof fn law_commands_are_admitted_to_free_places(
    supervisor: SupervisorView,
    worker: Result<(), IoFailureView>,
)
    ensures
        supervisor.admission_error(worker) is None <==> worker is Ok && !supervisor.degraded
            && supervisor.active_slots < 64,
        worker matches Err(source) ==> supervisor.admission_error(worker) == Some(
            CommandErrorView::SupervisorUnavailable(source),
        ),
{
}

} // verus!

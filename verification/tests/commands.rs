//! Running a command: capture, control, termination, cleanup and supervision,
//! on a simulated process.

use young_agent::capture::{
    CapturedStream, Channel, OutputPair, OutputStream, StreamRead, MAX_STREAM_READS_PER_TICK,
};
use young_agent::command_cleanup::{
    reconcile_control_and_cleanup, supervised_error, Cleanup, CleanupEvent, CleanupPhase,
    CommandCleanupCompletion, CommandCleanupState, DrainEvent, DrainPhase, OutputDrain,
};
use young_agent::command_control::{
    next_exit_poll_interval, CommandControl, ControlAction, ControlEvent, ExitOutcome,
    INITIAL_EXIT_POLL_INTERVAL, MAX_EXIT_POLL_INTERVAL, OUTPUT_DRAIN_GRACE,
};
use young_agent::command_error::CommandError;
use young_agent::command_group::{
    after_leader_wait, after_reap, group_already_exited, group_signal_permission_denied,
    poll_streams_once, process_group_id, terminate_signal_compatible_group_after_leader_exit,
    GroupTermination, TerminationPhase, TERMINAL_GROUP_SEAL_ROUNDS,
};
use young_agent::command_run::{
    ensure_process_tracking_supported, exec_privilege_gain_blocked, process_security_policy,
    shell_command, CommandOutcome, CommandStart, ControlEnd, Platform, StartEvent, StartPhase,
};
use young_agent::command_seal::{
    add_time, observe_close, GroupSeal, LeaderWatch, SealEvent, SealPhase, TokenEvent, TokenPhase,
    TokenWatch, WatchEvent, WatchPhase,
};
use young_agent::command_supervisor::{
    CommandSupervisor, NextDue, SupervisedCommand, SupervisionAction,
    MAX_COMMAND_PROCESSING_PANICS, MAX_COMMAND_SUPERVISION_SLOTS, MAX_TERMINATION_ATTEMPTS,
};
use young_agent::git_environment::remove_inherited_git_execution_context;
use young_agent::io_failure::{ErrorKind, IoFailure};

const SUCCESS: ExitOutcome = ExitOutcome { code: Some(0) };

fn failure(message: &str) -> IoFailure {
    IoFailure::new(ErrorKind::Other, message)
}

fn os_failure(number: i32) -> IoFailure {
    IoFailure {
        kind: ErrorKind::Other,
        message: format!("os error {number}"),
        os_error: Some(number),
    }
}

/// A command that writes `stdout`, ends at `ends_at`, and can be killed.
struct Process {
    now: u64,
    stdout: Vec<Vec<u8>>,
    stdout_stays_open: bool,
    ends_at: Option<u64>,
    cancelled_at: Option<u64>,
    kill: Result<(), IoFailure>,
    dies_when_killed: bool,
    status: ExitOutcome,
    terminations: usize,
}

impl Process {
    fn new() -> Process {
        Process {
            now: 0,
            stdout: Vec::new(),
            stdout_stays_open: false,
            ends_at: Some(10),
            cancelled_at: None,
            kill: Ok(()),
            dies_when_killed: true,
            status: SUCCESS,
            terminations: 0,
        }
    }

    fn ended(&self) -> bool {
        matches!(self.ends_at, Some(end) if end <= self.now)
    }

    fn read(&mut self, channel: Channel) -> StreamRead {
        match channel {
            Channel::Stdout => match self.stdout.pop() {
                Some(bytes) => StreamRead::Bytes(bytes),
                None if self.stdout_stays_open || !self.ended() => {
                    StreamRead::Failed(IoFailure::new(ErrorKind::WouldBlock, "would block"))
                }
                None => StreamRead::End,
            },
            Channel::Stderr => StreamRead::End,
        }
    }

    fn terminate(&mut self) -> Result<(), CommandError> {
        self.terminations += 1;
        if self.kill.is_ok() && self.dies_when_killed {
            self.ends_at = Some(self.ends_at.map_or(self.now, |end| end.min(self.now)));
        }
        self.kill.clone().map_err(CommandError::Kill)
    }

    fn control(&mut self, max_output_bytes: usize) -> CommandControl {
        let mut control = CommandControl::new(max_output_bytes);
        loop {
            let event = match control.action() {
                ControlAction::Finish => return control,
                ControlAction::PollCancellation => {
                    let cancelled = matches!(self.cancelled_at, Some(at) if at <= self.now);
                    ControlEvent::Cancellation(cancelled)
                }
                ControlAction::TerminateGroup => ControlEvent::Done(self.terminate()),
                ControlAction::ConfirmLeader { grace } => {
                    if !self.ended() {
                        self.now += grace;
                    }
                    ControlEvent::Observed(Ok(self.ended()))
                }
                ControlAction::SealAndReap => ControlEvent::Reaped(Ok(self.status)),
                ControlAction::ReadClock => ControlEvent::Clock(self.now),
                ControlAction::ReadStream(channel) => ControlEvent::Read(self.read(channel)),
                ControlAction::ObserveLeader => ControlEvent::Observed(Ok(self.ended())),
                ControlAction::WaitForActivity { timeout, .. } => {
                    self.now += timeout.max(1);
                    ControlEvent::Done(Ok(()))
                }
            };
            control.advance(event);
        }
    }

    fn clean_up(
        &mut self,
        state: CommandCleanupState,
        descendants_sealed: bool,
    ) -> Result<CommandCleanupCompletion, CommandError> {
        let mut cleanup = Cleanup::new(state);
        loop {
            let event = match cleanup.phase() {
                CleanupPhase::Finished => return cleanup.outcome(),
                CleanupPhase::Terminate => CleanupEvent::Terminated(self.terminate()),
                CleanupPhase::AwaitLeader => CleanupEvent::LeaderEnded(Ok(self.ended())),
                CleanupPhase::SealAndReap => CleanupEvent::Sealed {
                    reaped: Ok(self.status),
                    descendants_sealed,
                },
                CleanupPhase::HandOff => CleanupEvent::HandedOff(Ok(())),
            };
            cleanup.advance(event);
        }
    }

    fn drain(&mut self, output: OutputPair) -> Result<OutputPair, CommandError> {
        let mut drain = OutputDrain::new(output);
        loop {
            let event = match drain.phase() {
                DrainPhase::Finished => return drain.outcome(),
                DrainPhase::Begin | DrainPhase::ReadClock => DrainEvent::Clock(self.now),
                DrainPhase::Read(channel) => DrainEvent::Read(self.read(channel)),
                DrainPhase::Wait(timeout) => {
                    self.now += timeout.max(1);
                    DrainEvent::Waited(Ok(()))
                }
            };
            drain.advance(event);
        }
    }

    fn run(&mut self, max_output_bytes: usize) -> Result<CommandOutcome, CommandError> {
        let (end, output) = ControlEnd::of(self.control(max_output_bytes));
        let cleanup = self.clean_up(end.cleanup_state(), true);
        let output = if end.drains(&cleanup) {
            self.drain(output)?
        } else {
            output
        };
        end.conclude(output, cleanup)
    }
}

#[test]
fn quiet_command_polling_backs_off_and_output_resets_it() {
    let mut interval = 1;
    for _ in 0..16 {
        interval = next_exit_poll_interval(interval, false);
    }
    assert_eq!(interval, MAX_EXIT_POLL_INTERVAL);
    assert_eq!(next_exit_poll_interval(interval, true), 1);
    assert_eq!(INITIAL_EXIT_POLL_INTERVAL, 1);
}

#[test]
fn post_cleanup_drain_crosses_the_single_tick_budget_and_observes_eof() {
    let output_bytes = (MAX_STREAM_READS_PER_TICK + 1) * 8 * 1024;
    let mut process = Process::new();
    process.now = 10;
    process.stdout = vec![vec![b'x'; 8 * 1024]; MAX_STREAM_READS_PER_TICK + 1];

    let output = process
        .drain(OutputPair::new(output_bytes, 0))
        .expect("finite post-cleanup output drains");

    assert!(output.stdout().is_done());
    assert!(output.stderr().is_done());
    assert!(!output.has_error());
    assert_eq!(output.stdout().capture().total_bytes(), output_bytes as u64);
}

#[test]
fn interrupted_stream_poll_returns_to_the_deadline_owner_without_retrying() {
    let mut calls = 0;
    let mut poll = || {
        calls += 1;
        Err(IoFailure::new(ErrorKind::Interrupted, "interrupted"))
    };

    poll_streams_once(poll()).expect("an interrupted poll yields to the outer deadline loop");

    assert_eq!(calls, 1);
    assert_eq!(
        poll_streams_once(Err(failure("broken"))),
        Err(CommandError::ReadOutput(failure("broken")))
    );
}

#[test]
fn supervisor_capacity_fails_closed_and_recovers() {
    let mut supervisor = CommandSupervisor::new();
    for _ in 0..MAX_COMMAND_SUPERVISION_SLOTS {
        supervisor.reserve_slot().expect("slot is available");
    }

    let error = match supervisor.reserve_slot() {
        Err(error) => error,
        Ok(_) => panic!("capacity must be enforced before command spawn"),
    };
    assert_eq!(error.code(), "command_supervisor_pressure");
    assert!(error.retryable());
    for _ in 0..MAX_COMMAND_SUPERVISION_SLOTS {
        supervisor.release_slot();
    }
    assert!(supervisor.reserve_slot().is_ok());
}

#[test]
fn supervisor_worker_start_failure_can_be_retried_with_a_real_worker() {
    let mut supervisor = CommandSupervisor::new();
    assert!(supervisor.begin_worker_start());
    let source = IoFailure::new(ErrorKind::WouldBlock, "no thread");
    let first = supervisor
        .prepare_command_supervision(Err(source))
        .expect_err("first command preflight must fail closed");
    assert_eq!(first.code(), "command_supervisor_unavailable");
    assert!(first.retryable());
    let CommandError::SupervisorUnavailable(source) = first else {
        panic!("unexpected preflight error: {first:?}");
    };
    assert_eq!(source.kind, ErrorKind::WouldBlock);

    supervisor.worker_stopped();
    assert!(supervisor.begin_worker_start());
    supervisor
        .prepare_command_supervision(Ok(()))
        .expect("a later preflight starts the real worker");
    assert!(!supervisor.begin_worker_start());
    supervisor.worker_stopped();
    assert!(supervisor.begin_worker_start());
}

#[test]
fn supervisor_processing_panic_requeues_the_same_command() {
    let mut supervisor = CommandSupervisor::new();
    supervisor.enqueue(SupervisedCommand::new(7, 100));
    let NextDue::Due(command) = supervisor.take_next_due_command(1_000) else {
        panic!("the command is due");
    };
    assert_eq!(command.id, 7);
    supervisor.record_processing_panic(command, 1_000);
    assert_eq!(supervisor.take_next_due_command(1_000), NextDue::Wait(10));
    let NextDue::Due(again) = supervisor.take_next_due_command(1_010) else {
        panic!("the command is due again");
    };
    assert_eq!(again.id, 7);
    assert_eq!(again.processing_panics, 1);
    assert_eq!(supervisor.take_next_due_command(1_010), NextDue::Idle);
}

#[test]
fn repeated_processing_panics_back_off_degrade_and_do_not_starve_other_commands() {
    let mut supervisor = CommandSupervisor::new();
    supervisor.enqueue(SupervisedCommand::new(1, 20));
    supervisor.enqueue(SupervisedCommand::new(2, 21));
    let mut now = 40;
    let mut healthy_seen = false;
    for panics in 1..=MAX_COMMAND_PROCESSING_PANICS {
        let command = loop {
            match supervisor.take_next_due_command(now) {
                NextDue::Due(command) if command.id == 2 => healthy_seen = true,
                NextDue::Due(command) => break command,
                NextDue::Wait(delay) => now += delay,
                NextDue::Idle => panic!("the failing command is queued"),
            }
        };
        assert_eq!(
            supervisor.ensure_admission_healthy().is_ok(),
            panics <= MAX_COMMAND_PROCESSING_PANICS
        );
        supervisor.record_processing_panic(command, now);
    }
    assert!(healthy_seen);
    let error = supervisor
        .prepare_command_supervision(Ok(()))
        .expect_err("degraded supervisor must reject new commands");
    assert_eq!(error.code(), "command_supervisor_degraded");
    assert!(!error.retryable());
}

#[test]
fn the_first_due_command_comes_first() {
    let mut supervisor = CommandSupervisor::new();
    let mut late = SupervisedCommand::new(1, 0);
    late.next_action = 50;
    let mut early = SupervisedCommand::new(2, 0);
    early.next_action = 30;
    supervisor.enqueue(late);
    supervisor.enqueue(early);
    assert_eq!(supervisor.take_next_due_command(10), NextDue::Wait(20));
    assert_eq!(supervisor.take_next_due_command(60), NextDue::Due(early));
    assert_eq!(supervisor.take_next_due_command(60), NextDue::Due(late));
}

#[test]
fn supervised_commands_are_terminated_a_few_times() {
    let mut command = SupervisedCommand::new(1, 0);
    let mut delays = Vec::new();
    for attempt in 0..=MAX_TERMINATION_ATTEMPTS {
        let expected = if attempt < MAX_TERMINATION_ATTEMPTS {
            SupervisionAction::TerminateGroup
        } else {
            SupervisionAction::Nothing
        };
        assert_eq!(command.action(false), expected);
        let before = command.next_action;
        assert!(command.supervise_command_once(before, false, false));
        delays.push(command.next_action - before);
    }
    assert!(delays.windows(2).all(|pair| pair[0] <= pair[1]));
    assert_eq!(delays.last(), Some(&250));
    assert_eq!(command.action(true), SupervisionAction::SealAndReap);
    assert!(command.supervise_command_once(0, true, false));
    assert!(!command.supervise_command_once(0, true, true));
}

#[test]
fn a_command_that_ends_by_itself_succeeds() {
    let mut process = Process::new();
    process.stdout = vec![b"world\n".to_vec(), b"hello ".to_vec()];
    let outcome = process.run(1024).expect("the command succeeds");
    assert_eq!(outcome.stdout, "hello world\n");
    assert_eq!(outcome.stdout_bytes, 12);
    assert!(outcome.status.success());
    assert!(!outcome.output_incomplete);
    assert!(!outcome.stdout_truncated);
    assert_eq!(process.terminations, 0);
}

#[test]
fn large_output_is_kept_up_to_its_limit() {
    let mut process = Process::new();
    process.stdout = vec![vec![b'x'; 4096]; 5];
    let outcome = process.run(10_000).expect("the command succeeds");
    assert_eq!(outcome.stdout.len(), 10_000);
    assert_eq!(outcome.stdout_bytes, 5 * 4096);
    assert!(outcome.stdout_truncated);
}

#[test]
fn a_cancelled_command_never_succeeds() {
    let mut process = Process::new();
    process.ends_at = None;
    process.cancelled_at = Some(20);
    assert_eq!(process.run(1024), Err(CommandError::TerminationUnverified));
    assert_eq!(process.terminations, 1);
}

#[test]
fn output_that_stays_open_behind_the_command_is_given_up() {
    let mut process = Process::new();
    process.stdout_stays_open = true;
    let result = process.run(1024);
    assert_eq!(result, Err(CommandError::OutputIncomplete));
    assert!(process.now >= OUTPUT_DRAIN_GRACE);
}

#[test]
fn cancellation_permission_denied_reconciles_after_verified_cleanup() {
    let mut process = Process::new();
    process.ends_at = None;
    process.cancelled_at = Some(20);
    process.kill = Err(os_failure(1));
    let control = process.control(1024);
    let (end, output) = ControlEnd::of(control);
    assert_eq!(end.cleanup_state(), CommandCleanupState::TerminateAndReap);
    process.ends_at = Some(process.now);
    process.kill = Ok(());
    let cleanup = process.clean_up(end.cleanup_state(), true);
    assert!(cleanup.is_ok());
    let output = if end.drains(&cleanup) {
        process.drain(output).expect("the output drains")
    } else {
        output
    };
    assert_eq!(
        end.conclude(output, cleanup),
        Err(CommandError::TerminationUnverified)
    );
}

#[test]
fn double_termination_failure_hands_the_live_child_to_a_supervisor() {
    let mut process = Process::new();
    process.ends_at = None;
    process.kill = Err(failure("denied"));
    let result = process.clean_up(CommandCleanupState::TerminateAndReap, false);
    let Err(CommandError::TerminationSupervised(message)) = result else {
        panic!("double termination failure must be reported: {result:?}");
    };
    assert!(message.contains("process-wide supervisor retries termination"));
}

#[test]
fn partial_group_kill_success_hands_a_live_leader_to_the_supervisor() {
    let mut process = Process::new();
    process.ends_at = None;
    process.dies_when_killed = false;
    let result = process.clean_up(CommandCleanupState::TerminateAndReap, false);
    assert!(
        matches!(result, Err(CommandError::TerminationSupervised(_))),
        "partial group termination must be handed off: {result:?}"
    );
}

#[test]
fn untracked_terminal_cleanup_preserves_the_initial_kill_error() {
    let mut process = Process::new();
    process.now = 10;
    process.kill = Err(os_failure(1));
    let result = process.clean_up(CommandCleanupState::TerminateAndReap, false);
    assert!(
        matches!(result, Err(CommandError::Kill(_))),
        "the injected first termination failure remains visible: {result:?}"
    );
}

#[test]
fn tracked_terminal_cleanup_accepts_permission_denied_after_token_seal() {
    let mut process = Process::new();
    process.now = 10;
    process.kill = Err(os_failure(1));
    let result = process.clean_up(CommandCleanupState::TerminateAndReap, true);
    assert!(
        result.is_ok(),
        "a sealed tracking token proves terminal cleanup complete: {result:?}"
    );
}

#[test]
fn degraded_admission_restarts_cleanup_worker_and_reports_live_handoff() {
    let error = supervised_error(&CommandError::TerminationUnverified, None, Ok(()));
    let CommandError::TerminationSupervised(message) = error else {
        panic!("live ownership must be supervised");
    };
    assert!(message.contains("supervisor retries termination"));
    assert!(!message.contains("worker is unavailable"));

    let error = supervised_error(
        &CommandError::TerminationUnverified,
        Some(&CommandError::Wait(failure("no child"))),
        Err(failure("no thread")),
    );
    let CommandError::TerminationSupervised(message) = error else {
        panic!("live ownership must be supervised");
    };
    assert!(message.contains("no child"), "{message}");
    assert!(message.contains("no thread"), "{message}");
}

#[test]
fn a_reaped_command_needs_no_cleanup() {
    assert_eq!(
        Process::new().clean_up(CommandCleanupState::AlreadyReaped, false),
        Ok(CommandCleanupCompletion::AlreadyReaped)
    );
}

#[test]
fn control_and_cleanup_are_reconciled() {
    let reaped = CommandCleanupCompletion::Reaped {
        status: SUCCESS,
        tracked_descendants_sealed: true,
    };
    assert_eq!(
        reconcile_control_and_cleanup(Ok(()), Ok(reaped), false, true),
        Ok(Some(SUCCESS))
    );
    assert_eq!(
        reconcile_control_and_cleanup(
            Ok(()),
            Ok(CommandCleanupCompletion::AlreadyReaped),
            false,
            true
        ),
        Ok(None)
    );
    let broken = CommandError::Wait(failure("no child"));
    assert_eq!(
        reconcile_control_and_cleanup(Ok(()), Err(broken), false, true),
        Err(CommandError::Wait(failure("no child")))
    );
}

#[test]
fn open_descendant_token_prevents_leader_reap_until_seal_is_verified() {
    let mut seal = GroupSeal::new(true, false);
    let mut rounds = 0;
    while seal.phase() != SealPhase::Finished {
        match seal.phase() {
            SealPhase::Terminate => {
                rounds += 1;
                seal.advance(SealEvent::Terminated(Ok(())));
            }
            SealPhase::AwaitToken => seal.advance(SealEvent::TokenClosed(Ok(false))),
            phase => panic!("an open token must prevent reap: {phase:?}"),
        }
    }
    assert_eq!(rounds, TERMINAL_GROUP_SEAL_ROUNDS);
    assert!(!seal.tracked_descendants_are_sealed());
    assert_eq!(
        seal.outcome(),
        Some(Err(CommandError::TerminationUnverified))
    );

    let mut seal = GroupSeal::new(true, false);
    seal.advance(SealEvent::Terminated(Ok(())));
    seal.advance(SealEvent::TokenClosed(Ok(true)));
    assert_eq!(seal.phase(), SealPhase::Reap);
    seal.advance(SealEvent::Reaped(Ok(SUCCESS)));
    assert!(seal.tracked_descendants_are_sealed());
    assert_eq!(seal.outcome(), Some(Ok(SUCCESS)));
}

#[test]
fn descendant_token_observation_is_bounded_under_continuous_writes() {
    let mut watch = TokenWatch::new(false, 5);
    let mut now = 100;
    let mut steps = 0;
    while watch.phase() != TokenPhase::Finished {
        steps += 1;
        assert!(steps < 100, "the observation must end");
        match watch.phase() {
            TokenPhase::Observe | TokenPhase::ObserveLast => {
                watch.advance(TokenEvent::Read(StreamRead::Bytes(vec![b'x'; 16])));
            }
            TokenPhase::ReadClock => watch.advance(TokenEvent::Clock(now)),
            TokenPhase::Poll(timeout) => {
                now += timeout.max(1);
                watch.advance(TokenEvent::Polled(Ok(())));
            }
            TokenPhase::Finished => unreachable!(),
        }
    }
    assert_eq!(watch.outcome(), Ok(false));
    assert!(now <= 100 + 6);
}

#[test]
fn a_closed_token_is_seen_at_once() {
    let mut watch = TokenWatch::new(false, 5);
    watch.advance(TokenEvent::Read(StreamRead::End));
    assert_eq!(watch.phase(), TokenPhase::Finished);
    assert_eq!(watch.outcome(), Ok(true));
    assert_eq!(TokenWatch::new(true, 5).outcome(), Ok(true));
    assert_eq!(observe_close(StreamRead::End), Ok(true));
    assert_eq!(observe_close(StreamRead::Bytes(vec![1])), Ok(false));
}

#[test]
fn a_leader_is_watched_until_its_grace_is_over() {
    let mut watch = LeaderWatch::new(0, 100);
    let mut now = 0;
    while watch.phase() != WatchPhase::Finished {
        match watch.phase() {
            WatchPhase::Observe => watch.advance(WatchEvent::Observed(Ok(false))),
            WatchPhase::ReadClock => watch.advance(WatchEvent::Clock(now)),
            WatchPhase::Sleep(delay) => {
                now += delay;
                watch.advance(WatchEvent::Slept);
            }
            WatchPhase::Finished => unreachable!(),
        }
    }
    assert_eq!(watch.outcome(), Ok(false));
    assert!((100..=110).contains(&now), "{now}");

    let mut watch = LeaderWatch::new(0, 100);
    watch.advance(WatchEvent::Observed(Ok(true)));
    assert_eq!(watch.outcome(), Ok(true));
    assert_eq!(add_time(u64::MAX, 5), u64::MAX);
}

fn terminated(events: Vec<Result<(), IoFailure>>) -> Result<(), CommandError> {
    let mut termination = GroupTermination::new(4711);
    let mut events = events.into_iter();
    while termination.phase() != TerminationPhase::Finished {
        termination.advance(events.next().expect("one more signal is due"));
    }
    termination.outcome()
}

#[test]
fn groups_are_killed_or_signalled() {
    assert_eq!(terminated(vec![Ok(())]), Ok(()));
    assert_eq!(terminated(vec![Err(os_failure(3))]), Ok(()));
    assert_eq!(terminated(vec![Err(os_failure(5)), Ok(())]), Ok(()));
    assert_eq!(terminated(vec![Err(os_failure(5)), Err(os_failure(3))]), Ok(()));
    assert!(matches!(
        terminated(vec![Err(os_failure(5)), Err(os_failure(6))]),
        Err(CommandError::Kill(_))
    ));
}

#[test]
fn signal_errors_are_told_apart() {
    assert!(group_signal_permission_denied(&os_failure(1)));
    assert!(!group_signal_permission_denied(&os_failure(3)));
    assert!(group_already_exited(&os_failure(3)));
    assert!(!group_already_exited(&os_failure(1)));
    assert_eq!(process_group_id(42), Ok(42));
    assert!(process_group_id(0).is_err());
    assert!(process_group_id(u32::MAX).is_err());
    let denied: Result<(), CommandError> = Err(CommandError::Kill(os_failure(1)));
    assert_eq!(terminate_signal_compatible_group_after_leader_exit(denied), Ok(()));
    let other: Result<(), CommandError> = Err(CommandError::Kill(os_failure(22)));
    assert!(terminate_signal_compatible_group_after_leader_exit(other).is_err());
}

#[test]
fn interrupted_waits_are_tried_again() {
    let interrupted = || IoFailure::new(ErrorKind::Interrupted, "interrupted");
    assert_eq!(after_leader_wait(Err(interrupted())), None);
    assert_eq!(after_leader_wait(Ok(true)), Some(Ok(true)));
    assert_eq!(after_reap(Err(interrupted())), None);
    assert_eq!(after_reap(Ok(Some(SUCCESS))), Some(Ok(SUCCESS)));
    assert!(matches!(
        after_reap(Err(failure("no child"))),
        Some(Err(CommandError::Wait(_)))
    ));
}

#[test]
fn commands_start_step_by_step() {
    let mut start = CommandStart::new(Platform::Linux);
    for (phase, event) in [
        (StartPhase::PollCancellation, StartEvent::Cancellation(false)),
        (StartPhase::Supervise, StartEvent::Supervised(Ok(()))),
        (StartPhase::BindWorkspace, StartEvent::Done(Ok(()))),
        (StartPhase::PrepareToken, StartEvent::Done(Ok(()))),
        (StartPhase::Spawn, StartEvent::Done(Ok(()))),
        (StartPhase::ConfigureOutput, StartEvent::Done(Ok(()))),
    ] {
        assert_eq!(start.phase(), phase);
        start.advance(event);
    }
    assert_eq!(start.phase(), StartPhase::Started);
    assert_eq!(start.failure(), None);
}

fn failed_start(events: Vec<StartEvent>) -> CommandError {
    let mut start = CommandStart::new(Platform::Linux);
    for event in events {
        start.advance(event);
    }
    assert_eq!(start.phase(), StartPhase::Failed);
    start.failure().expect("the start failed")
}

#[test]
fn starts_that_fail_say_why() {
    let begun = || {
        vec![
            StartEvent::Cancellation(false),
            StartEvent::Supervised(Ok(())),
        ]
    };
    assert_eq!(
        failed_start(vec![StartEvent::Cancellation(true)]),
        CommandError::Cancelled
    );
    let mut events = begun();
    events.push(StartEvent::Done(Err(failure("moved"))));
    assert_eq!(
        failed_start(events),
        CommandError::WorkspaceChanged(failure("moved"))
    );
    let mut events = begun();
    events.push(StartEvent::Done(Ok(())));
    events.push(StartEvent::Done(Ok(())));
    events.push(StartEvent::Done(Err(failure("no shell"))));
    assert_eq!(failed_start(events), CommandError::Spawn(failure("no shell")));
}

#[test]
fn output_configuration_failure_still_reaps_the_spawned_group() {
    let mut start = CommandStart::new(Platform::Linux);
    start.advance(StartEvent::Cancellation(false));
    start.advance(StartEvent::Supervised(Ok(())));
    for _ in 0..3 {
        start.advance(StartEvent::Done(Ok(())));
    }
    start.advance(StartEvent::Done(Err(failure("no nonblocking"))));
    assert_eq!(start.phase(), StartPhase::CleanUp);
    start.advance(StartEvent::CleanedUp(Ok(CommandCleanupCompletion::Reaped {
        status: SUCCESS,
        tracked_descendants_sealed: true,
    })));
    assert_eq!(start.phase(), StartPhase::Failed);
    assert_eq!(
        start.failure(),
        Some(CommandError::ConfigureOutput(failure("no nonblocking")))
    );
}

#[test]
fn command_fails_closed_without_handle_bound_working_directories() {
    for platform in [Platform::OtherUnix, Platform::Windows, Platform::Other] {
        assert_eq!(
            ensure_process_tracking_supported(platform),
            Err(CommandError::UnsupportedProcessTracking)
        );
    }
    assert_eq!(ensure_process_tracking_supported(Platform::Linux), Ok(()));
    assert!(exec_privilege_gain_blocked(Platform::Linux));
    assert!(!exec_privilege_gain_blocked(Platform::MacOs));
    assert_ne!(
        process_security_policy(Platform::Linux),
        process_security_policy(Platform::MacOs)
    );
}

#[test]
fn run_command_does_not_inject_shell_variables_or_source_text() {
    let words = shell_command(Platform::Linux, "echo $HOME; pwd");
    assert_eq!(words.last().map(String::as_str), Some("echo $HOME; pwd"));
    assert_eq!(
        words.iter().filter(|word| word.contains("pwd")).count(),
        1
    );
}

#[test]
fn captured_text_is_decoded_as_far_as_it_goes() {
    let mut stream = CapturedStream::new(5);
    stream.push(b"ab");
    stream.push(&[0xff, b'c', b'd', b'e']);
    assert_eq!(stream.text(), "ab\u{fffd}cd");
    assert_eq!(stream.total_bytes(), 6);
    assert!(stream.truncated());
}

#[test]
fn a_stream_is_read_a_bounded_number_of_times_in_one_turn() {
    let mut stream = OutputStream::new(16);
    stream.begin_turn();
    let mut reads = 0;
    while stream.wants_read() {
        reads += 1;
        assert_eq!(stream.after_read(StreamRead::Bytes(vec![b'x'])), None);
    }
    assert_eq!(reads, MAX_STREAM_READS_PER_TICK);
    assert!(stream.progressed());
    assert!(!stream.is_done());
    stream.begin_turn();
    assert_eq!(stream.after_read(StreamRead::End), None);
    assert!(stream.is_done());
}

#[test]
fn command_errors_have_codes_and_messages() {
    for (error, code) in [
        (CommandError::Spawn(failure("x")), "command_spawn_failed"),
        (CommandError::Cancelled, "tool_cancelled"),
        (CommandError::TerminationUnverified, "command_termination_unverified"),
        (CommandError::SupervisorAtCapacity, "command_supervisor_pressure"),
        (CommandError::SupervisorDegraded, "command_supervisor_degraded"),
    ] {
        assert_eq!(error.code(), code);
        assert!(!error.message().is_empty());
    }
}

#[test]
fn inherited_git_variables_are_removed() {
    let inherited: Vec<String> = [
        "PATH",
        "GIT_CONFIG_KEY_0",
        "GIT_CONFIG_VALUE_12",
        "GIT_TRACE2_EVENT",
        "HOME",
    ]
    .iter()
    .map(|name| name.to_string())
    .collect();
    let removed = remove_inherited_git_execution_context(&inherited);
    for name in ["GIT_CONFIG_KEY_0", "GIT_CONFIG_VALUE_12", "GIT_TRACE2_EVENT", "GIT_DIR"] {
        assert!(removed.iter().any(|entry| entry == name), "{name} stays: {removed:?}");
    }
    for name in ["PATH", "HOME"] {
        assert!(!removed.iter().any(|entry| entry == name), "{name} is removed");
    }
}

#[test]
fn captures_do_not_depend_on_the_pieces_of_a_stream() {
    let whole = b"a stream of bytes";
    for limit in [0, 3, 17, 40] {
        let mut at_once = CapturedStream::new(limit);
        at_once.push(whole);
        for cut in 0..=whole.len() {
            let mut in_pieces = CapturedStream::new(limit);
            in_pieces.push(&whole[..cut]);
            in_pieces.push(&whole[cut..]);
            assert_eq!(in_pieces.text(), at_once.text());
            assert_eq!(in_pieces.total_bytes(), at_once.total_bytes());
            assert_eq!(in_pieces.truncated(), at_once.truncated());
        }
        let kept = limit.min(whole.len());
        assert_eq!(at_once.text().as_bytes(), &whole[..kept]);
        assert_eq!(at_once.truncated(), limit < whole.len());
        assert_eq!(at_once.total_bytes(), 17);
    }
}

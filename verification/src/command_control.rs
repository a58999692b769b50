//! Watching over a running command: reading its output, seeing its end, and
//! ending it when that is asked for. The decisions are here; the system calls
//! are made outside, and come back as events.

use crate::capture;
use crate::capture::{Channel, OutputPair, PairView, ReadView, StreamRead};
use crate::command_error::{CommandError, CommandErrorView};
use vstd::prelude::*;

verus! {

/// The shortest wait for a quiet command, in milliseconds.
pub const INITIAL_EXIT_POLL_INTERVAL: u64 = 1;

/// The longest wait for a quiet command, in milliseconds.
pub const MAX_EXIT_POLL_INTERVAL: u64 = 50;

/// How long the end of a terminated command is waited for, in milliseconds.
pub const TERMINATION_CONFIRM_GRACE: u64 = 100;

/// How long output may stay open behind the end of its command, in
/// milliseconds.
pub const OUTPUT_DRAIN_GRACE: u64 = 250;

/// How a command ended: with a code, or without one by a signal.
#[derive(Clone, Copy, Debug, PartialEq, Eq, Structural)]
pub struct ExitOutcome {
    pub code: Option<i32>,
}

impl ExitOutcome {
    /// Whether the command succeeded.
    pub open spec fn is_success(self) -> bool {
        self.code == Some(0i32)
    }

    /// Whether the command succeeded.
    pub fn success(&self) -> (result: bool)
        ensures
            result == self.is_success(),
    {
        match self.code {
            Some(code) => code == 0,
            None => false,
        }
    }
}

/// The next wait for a command: short again behind output, twice as long, up to
/// a limit, behind none.
pub open spec fn poll_interval(current: u64, made_progress: bool) -> u64 {
    if made_progress {
        INITIAL_EXIT_POLL_INTERVAL
    } else if current >= 25 {
        MAX_EXIT_POLL_INTERVAL
    } else {
        (current * 2) as u64
    }
}

/// Executable form of [`poll_interval`].
pub fn next_exit_poll_interval(current: u64, made_progress: bool) -> (next: u64)
    ensures
        next == poll_interval(current, made_progress),
        next <= MAX_EXIT_POLL_INTERVAL,
        !made_progress ==> next == if current * 2 <= MAX_EXIT_POLL_INTERVAL {
            current * 2
        } else {
            MAX_EXIT_POLL_INTERVAL as int
        },
{
    if made_progress {
        INITIAL_EXIT_POLL_INTERVAL
    } else if current >= 25 {
        MAX_EXIT_POLL_INTERVAL
    } else {
        current * 2
    }
}

/// What the control of a command waits for.
#[derive(Clone, Copy, Debug, PartialEq, Eq, Structural)]
pub enum ControlPhase {
    /// Whether the command is to be cancelled.
    PollCancellation,
    /// The process group is terminated.
    Terminate,
    /// The end of its leader is waited for.
    ConfirmLeader,
    /// The group of the cancelled command is sealed and its leader reaped.
    ReapCancelled,
    /// The time of the cancellation.
    MarkForced,
    /// Output is read.
    Read,
    /// Whether the leader has ended.
    ObserveLeader,
    /// The group is sealed and its leader reaped.
    Reap,
    /// The time, for the deadlines.
    CheckDeadlines,
    /// Something to happen.
    Wait,
    /// Nothing: the control is over.
    Finished,
}

/// What is to be done for the control of a command.
#[derive(Clone, Copy, Debug, PartialEq, Eq, Structural)]
pub enum ControlAction {
    PollCancellation,
    TerminateGroup,
    ConfirmLeader { grace: u64 },
    SealAndReap,
    ReadClock,
    ReadStream(Channel),
    ObserveLeader,
    WaitForActivity { stdout_done: bool, stderr_done: bool, timeout: u64 },
    Finish,
}

/// What was found when an action was done.
#[derive(Debug, PartialEq, Eq)]
pub enum ControlEvent {
    Cancellation(bool),
    Done(Result<(), CommandError>),
    Observed(Result<bool, CommandError>),
    Reaped(Result<ExitOutcome, CommandError>),
    Clock(u64),
    Read(StreamRead),
}

/// The mathematical value of a [`ControlEvent`].
pub enum ControlEventView {
    Cancellation(bool),
    Done(Result<(), CommandErrorView>),
    Observed(Result<bool, CommandErrorView>),
    Reaped(Result<ExitOutcome, CommandErrorView>),
    Clock(u64),
    Read(ReadView),
}

impl View for ControlEvent {
    type V = ControlEventView;

    open spec fn view(&self) -> ControlEventView {
        match self {
            ControlEvent::Cancellation(requested) => ControlEventView::Cancellation(*requested),
            ControlEvent::Done(Ok(())) => ControlEventView::Done(Ok(())),
            ControlEvent::Done(Err(error)) => ControlEventView::Done(Err(error@)),
            ControlEvent::Observed(Ok(found)) => ControlEventView::Observed(Ok(*found)),
            ControlEvent::Observed(Err(error)) => ControlEventView::Observed(Err(error@)),
            ControlEvent::Reaped(Ok(status)) => ControlEventView::Reaped(Ok(*status)),
            ControlEvent::Reaped(Err(error)) => ControlEventView::Reaped(Err(error@)),
            ControlEvent::Clock(now) => ControlEventView::Clock(*now),
            ControlEvent::Read(read) => ControlEventView::Read(read@),
        }
    }
}

/// The mathematical value of a [`CommandControl`].
pub struct ControlView {
    pub phase: ControlPhase,
    pub output: PairView,
    pub status: Option<ExitOutcome>,
    pub leader_terminal: bool,
    pub drain_started_at: Option<u64>,
    pub output_incomplete: bool,
    pub cancelled: bool,
    pub forced_at: Option<u64>,
    pub interval: u64,
    /// Why the control broke off, where it did.
    pub failure: Option<CommandErrorView>,
}

/// The time from `start` to `now`.
pub open spec fn elapsed(start: u64, now: u64) -> u64 {
    if now >= start {
        (now - start) as u64
    } else {
        0
    }
}

impl ControlView {
    /// What holds in every state. A command whose control ends without having
    /// broken off has ended, unless it was cancelled.
    pub open spec fn well_formed(self) -> bool {
        &&& self.output.well_formed()
        &&& self.output_incomplete ==> self.status is Some
        &&& self.forced_at is Some ==> self.cancelled || self.output_incomplete
        &&& self.phase == ControlPhase::MarkForced ==> self.cancelled
        &&& self.phase == ControlPhase::Terminate || self.phase == ControlPhase::ConfirmLeader
            || self.phase == ControlPhase::ReapCancelled ==> self.cancelled && self.status is None
        &&& self.phase == ControlPhase::ObserveLeader || self.phase == ControlPhase::Reap
            ==> self.status is None
        &&& self.phase == ControlPhase::Read ==> self.output.next_read() is Some
        &&& self.failure is Some ==> self.phase == ControlPhase::Finished
        &&& self.phase == ControlPhase::Finished && self.failure is None ==> self.cancelled
            || self.status is Some
    }

    pub open spec fn in_phase(self, phase: ControlPhase) -> ControlView {
        ControlView { phase, ..self }
    }

    pub open spec fn failed(self, error: CommandErrorView) -> ControlView {
        ControlView { phase: ControlPhase::Finished, failure: Some(error), ..self }
    }

    /// Behind the reads of a turn.
    pub open spec fn after_reads(self) -> ControlView {
        let next = ControlView {
            interval: if self.output.progressed() {
                poll_interval(self.interval, true)
            } else {
                self.interval
            },
            ..self
        };
        if next.status is Some {
            next.after_status()
        } else if next.leader_terminal {
            next.in_phase(ControlPhase::Reap)
        } else {
            next.in_phase(ControlPhase::ObserveLeader)
        }
    }

    /// Behind the look at the command.
    pub open spec fn after_status(self) -> ControlView {
        if self.status is Some && self.output.done() {
            self.in_phase(ControlPhase::Finished)
        } else {
            self.in_phase(ControlPhase::CheckDeadlines)
        }
    }

    /// The reads of this turn, or what follows them.
    pub open spec fn reading(self) -> ControlView {
        if self.output.next_read() is Some {
            self.in_phase(ControlPhase::Read)
        } else {
            self.after_reads()
        }
    }

    /// A new turn of reads.
    pub open spec fn begin_reads(self) -> ControlView {
        ControlView { output: self.output.turn(), ..self }.reading()
    }

    /// Whether a command that is over or cancelled has been given its time.
    pub open spec fn grace_is_over(self, now: u64) -> bool {
        match self.forced_at {
            Some(forced) => elapsed(forced, now) >= OUTPUT_DRAIN_GRACE,
            None => false,
        }
    }

    /// Behind the look at the clock.
    pub open spec fn check_deadlines(self, now: u64) -> ControlView {
        if self.grace_is_over(now) {
            self.in_phase(ControlPhase::Finished)
        } else {
            let started = match self.drain_started_at {
                Some(started) => started,
                None => now,
            };
            let next = if self.forced_at is None && self.status is Some {
                if elapsed(started, now) >= OUTPUT_DRAIN_GRACE {
                    ControlView {
                        drain_started_at: Some(started),
                        output_incomplete: true,
                        forced_at: Some(now),
                        ..self
                    }
                } else {
                    ControlView { drain_started_at: Some(started), ..self }
                }
            } else {
                ControlView { drain_started_at: None, ..self }
            };
            if self.output.progressed() {
                next.in_phase(ControlPhase::PollCancellation)
            } else {
                next.in_phase(ControlPhase::Wait)
            }
        }
    }

    /// Behind the look at the cancellation.
    pub open spec fn after_cancellation(self, requested: bool) -> ControlView {
        if requested && !self.cancelled {
            let next = ControlView { cancelled: true, ..self };
            if self.status is None {
                next.in_phase(ControlPhase::Terminate)
            } else {
                next.in_phase(ControlPhase::MarkForced)
            }
        } else {
            self.begin_reads()
        }
    }

    /// How an event moves the control on. An event that it does not wait for
    /// leaves it where it is.
    pub open spec fn step(self, event: ControlEventView) -> ControlView {
        match (self.phase, event) {
            (ControlPhase::PollCancellation, ControlEventView::Cancellation(requested)) => {
                self.after_cancellation(requested)
            },
            (ControlPhase::Terminate, ControlEventView::Done(Ok(()))) => self.in_phase(
                ControlPhase::ConfirmLeader,
            ),
            (ControlPhase::Terminate, ControlEventView::Done(Err(error))) => self.failed(error),
            (ControlPhase::ConfirmLeader, ControlEventView::Observed(Ok(ended))) => if ended {
                self.in_phase(ControlPhase::ReapCancelled)
            } else {
                self.in_phase(ControlPhase::MarkForced)
            },
            (ControlPhase::ConfirmLeader, ControlEventView::Observed(Err(error))) => self.failed(
                error,
            ),
            (ControlPhase::ReapCancelled, ControlEventView::Reaped(Ok(status))) => ControlView {
                status: Some(status),
                phase: ControlPhase::MarkForced,
                ..self
            },
            (ControlPhase::ReapCancelled, ControlEventView::Reaped(Err(error))) => self.failed(
                error,
            ),
            (ControlPhase::MarkForced, ControlEventView::Clock(now)) => ControlView {
                forced_at: Some(now),
                ..self
            }.begin_reads(),
            (ControlPhase::Read, ControlEventView::Read(read)) => ControlView {
                output: self.output.after_read(read),
                ..self
            }.reading(),
            (ControlPhase::ObserveLeader, ControlEventView::Observed(Ok(ended))) => {
                let next = ControlView { leader_terminal: ended, ..self };
                if ended {
                    next.in_phase(ControlPhase::Reap)
                } else {
                    next.after_status()
                }
            },
            (ControlPhase::ObserveLeader, ControlEventView::Observed(Err(error))) => self.failed(
                error,
            ),
            (ControlPhase::Reap, ControlEventView::Reaped(Ok(status))) => ControlView {
                status: Some(status),
                ..self
            }.after_status(),
            (ControlPhase::Reap, ControlEventView::Reaped(Err(error))) => self.failed(error),
            (ControlPhase::CheckDeadlines, ControlEventView::Clock(now)) => self.check_deadlines(
                now,
            ),
            (ControlPhase::Wait, ControlEventView::Done(Ok(()))) => ControlView {
                interval: poll_interval(self.interval, false),
                phase: ControlPhase::PollCancellation,
                ..self
            },
            (ControlPhase::Wait, ControlEventView::Done(Err(error))) => self.failed(error),
            _ => self,
        }
    }

    /// What is to be done next.
    pub open spec fn action(self) -> ControlAction {
        match self.phase {
            ControlPhase::PollCancellation => ControlAction::PollCancellation,
            ControlPhase::Terminate => ControlAction::TerminateGroup,
            ControlPhase::ConfirmLeader => ControlAction::ConfirmLeader {
                grace: TERMINATION_CONFIRM_GRACE,
            },
            ControlPhase::ReapCancelled => ControlAction::SealAndReap,
            ControlPhase::MarkForced => ControlAction::ReadClock,
            ControlPhase::Read => match self.output.next_read() {
                Some(channel) => ControlAction::ReadStream(channel),
                None => ControlAction::Finish,
            },
            ControlPhase::ObserveLeader => ControlAction::ObserveLeader,
            ControlPhase::Reap => ControlAction::SealAndReap,
            ControlPhase::CheckDeadlines => ControlAction::ReadClock,
            ControlPhase::Wait => ControlAction::WaitForActivity {
                stdout_done: self.output.stdout.done,
                stderr_done: self.output.stderr.done,
                timeout: self.interval,
            },
            ControlPhase::Finished => ControlAction::Finish,
        }
    }
}

/// The control of a running command.
pub struct CommandControl {
    phase: ControlPhase,
    output: OutputPair,
    status: Option<ExitOutcome>,
    leader_terminal: bool,
    drain_started_at: Option<u64>,
    output_incomplete: bool,
    cancelled: bool,
    forced_at: Option<u64>,
    interval: u64,
    failure: Option<CommandError>,
}

impl View for CommandControl {
    type V = ControlView;

    closed spec fn view(&self) -> ControlView {
        ControlView {
            phase: self.phase,
            output: self.output@,
            status: self.status,
            leader_terminal: self.leader_terminal,
            drain_started_at: self.drain_started_at,
            output_incomplete: self.output_incomplete,
            cancelled: self.cancelled,
            forced_at: self.forced_at,
            interval: self.interval,
            failure: match self.failure {
                Some(error) => Some(error@),
                None => None,
            },
        }
    }
}

fn time_since(start: u64, now: u64) -> (time: u64)
    ensures
        time == elapsed(start, now),
{
    if now >= start {
        now - start
    } else {
        0
    }
}

impl CommandControl {
    /// The control of a command that has just been started, each of whose
    /// streams is retained up to `max_output_bytes`.
    pub fn new(max_output_bytes: usize) -> (control: CommandControl)
        ensures
            control@.well_formed(),
            control@.phase == ControlPhase::PollCancellation,
            control@.output == PairView::initial(
                max_output_bytes as nat,
                max_output_bytes as nat,
            ),
            control@.status is None,
            !control@.leader_terminal,
            control@.drain_started_at is None,
            !control@.output_incomplete,
            !control@.cancelled,
            control@.forced_at is None,
            control@.interval == INITIAL_EXIT_POLL_INTERVAL,
            control@.failure is None,
    {
        CommandControl {
            phase: ControlPhase::PollCancellation,
            output: OutputPair::new(max_output_bytes, max_output_bytes),
            status: None,
            leader_terminal: false,
            drain_started_at: None,
            output_incomplete: false,
            cancelled: false,
            forced_at: None,
            interval: INITIAL_EXIT_POLL_INTERVAL,
            failure: None,
        }
    }

    /// What is to be done next.
    pub fn action(&self) -> (action: ControlAction)
        ensures
            action == self@.action(),
    {
        match self.phase {
            ControlPhase::PollCancellation => ControlAction::PollCancellation,
            ControlPhase::Terminate => ControlAction::TerminateGroup,
            ControlPhase::ConfirmLeader => ControlAction::ConfirmLeader {
                grace: TERMINATION_CONFIRM_GRACE,
            },
            ControlPhase::ReapCancelled => ControlAction::SealAndReap,
            ControlPhase::MarkForced => ControlAction::ReadClock,
            ControlPhase::Read => match self.output.next_read() {
                Some(channel) => ControlAction::ReadStream(channel),
                None => ControlAction::Finish,
            },
            ControlPhase::ObserveLeader => ControlAction::ObserveLeader,
            ControlPhase::Reap => ControlAction::SealAndReap,
            ControlPhase::CheckDeadlines => ControlAction::ReadClock,
            ControlPhase::Wait => ControlAction::WaitForActivity {
                stdout_done: self.output.stdout().is_done(),
                stderr_done: self.output.stderr().is_done(),
                timeout: self.interval,
            },
            ControlPhase::Finished => ControlAction::Finish,
        }
    }

    fn fail(&mut self, error: CommandError)
        requires
            old(self)@.well_formed(),
        ensures
            final(self)@ == old(self)@.failed(error@),
            final(self)@.well_formed(),
    {
        self.phase = ControlPhase::Finished;
        self.failure = Some(error);
    }

    fn after_status(&mut self)
        ensures
            final(self)@ == old(self)@.after_status(),
    {
        if self.status.is_some() && self.output.done() {
            self.phase = ControlPhase::Finished;
        } else {
            self.phase = ControlPhase::CheckDeadlines;
        }
    }

    fn after_reads(&mut self)
        ensures
            final(self)@ == old(self)@.after_reads(),
    {
        if self.output.progressed() {
            self.interval = next_exit_poll_interval(self.interval, true);
        }
        if self.status.is_some() {
            self.after_status();
        } else if self.leader_terminal {
            self.phase = ControlPhase::Reap;
        } else {
            self.phase = ControlPhase::ObserveLeader;
        }
    }

    fn reading(&mut self)
        ensures
            final(self)@ == old(self)@.reading(),
    {
        if self.output.next_read().is_some() {
            self.phase = ControlPhase::Read;
        } else {
            self.after_reads();
        }
    }

    fn begin_reads(&mut self)
        requires
            old(self)@.output.well_formed(),
        ensures
            final(self)@ == old(self)@.begin_reads(),
    {
        self.output.begin_turn();
        self.reading();
    }

    fn check_deadlines(&mut self, now: u64)
        ensures
            final(self)@ == old(self)@.check_deadlines(now),
    {
        if let Some(forced) = self.forced_at {
            if time_since(forced, now) >= OUTPUT_DRAIN_GRACE {
                self.phase = ControlPhase::Finished;
                return;
            }
        }
        if self.forced_at.is_none() && self.status.is_some() {
            let started: u64 = match self.drain_started_at {
                Some(started) => started,
                None => now,
            };
            self.drain_started_at = Some(started);
            if time_since(started, now) >= OUTPUT_DRAIN_GRACE {
                self.output_incomplete = true;
                self.forced_at = Some(now);
            }
        } else {
            self.drain_started_at = None;
        }
        if self.output.progressed() {
            self.phase = ControlPhase::PollCancellation;
        } else {
            self.phase = ControlPhase::Wait;
        }
    }

    fn after_cancellation(&mut self, requested: bool)
        requires
            old(self)@.output.well_formed(),
        ensures
            final(self)@ == old(self)@.after_cancellation(requested),
    {
        if requested && !self.cancelled {
            self.cancelled = true;
            if self.status.is_none() {
                self.phase = ControlPhase::Terminate;
            } else {
                self.phase = ControlPhase::MarkForced;
            }
        } else {
            self.begin_reads();
        }
    }

    /// The parts of the control: its output, the end of the command, whether
    /// output stayed open, whether the command was cancelled, and why the
    /// control broke off.
    pub fn into_parts(self) -> (parts: (
        OutputPair,
        Option<ExitOutcome>,
        bool,
        bool,
        Option<CommandError>,
    ))
        ensures
            parts.0@ == self@.output,
            parts.1 == self@.status,
            parts.2 == self@.output_incomplete,
            parts.3 == self@.cancelled,
            match parts.4 {
                Some(error) => self@.failure == Some(error@),
                None => self@.failure is None,
            },
    {
        (self.output, self.status, self.output_incomplete, self.cancelled, self.failure)
    }

    /// Moves the control on by an event.
    pub fn advance(&mut self, event: ControlEvent)
        requires
            old(self)@.well_formed(),
        ensures
            final(self)@ == old(self)@.step(event@),
            final(self)@.well_formed(),
    {
        proof {
            lemma_step_keeps_well_formed(self@, event@);
        }
        match (self.phase, event) {
            (ControlPhase::PollCancellation, ControlEvent::Cancellation(requested)) => {
                self.after_cancellation(requested);
            },
            (ControlPhase::Terminate, ControlEvent::Done(Ok(()))) => {
                self.phase = ControlPhase::ConfirmLeader;
            },
            (ControlPhase::Terminate, ControlEvent::Done(Err(error))) => {
                self.fail(error);
            },
            (ControlPhase::ConfirmLeader, ControlEvent::Observed(Ok(ended))) => {
                self.phase = if ended {
                    ControlPhase::ReapCancelled
                } else {
                    ControlPhase::MarkForced
                };
            },
            (ControlPhase::ConfirmLeader, ControlEvent::Observed(Err(error))) => {
                self.fail(error);
            },
            (ControlPhase::ReapCancelled, ControlEvent::Reaped(Ok(status))) => {
                self.status = Some(status);
                self.phase = ControlPhase::MarkForced;
            },
            (ControlPhase::ReapCancelled, ControlEvent::Reaped(Err(error))) => {
                self.fail(error);
            },
            (ControlPhase::MarkForced, ControlEvent::Clock(now)) => {
                self.forced_at = Some(now);
                self.begin_reads();
            },
            (ControlPhase::Read, ControlEvent::Read(read)) => {
                self.output.after_read(read);
                self.reading();
            },
            (ControlPhase::ObserveLeader, ControlEvent::Observed(Ok(ended))) => {
                self.leader_terminal = ended;
                if ended {
                    self.phase = ControlPhase::Reap;
                } else {
                    self.after_status();
                }
            },
            (ControlPhase::ObserveLeader, ControlEvent::Observed(Err(error))) => {
                self.fail(error);
            },
            (ControlPhase::Reap, ControlEvent::Reaped(Ok(status))) => {
                self.status = Some(status);
                self.after_status();
            },
            (ControlPhase::Reap, ControlEvent::Reaped(Err(error))) => {
                self.fail(error);
            },
            (ControlPhase::CheckDeadlines, ControlEvent::Clock(now)) => {
                self.check_deadlines(now);
            },
            (ControlPhase::Wait, ControlEvent::Done(Ok(()))) => {
                self.interval = next_exit_poll_interval(self.interval, false);
                self.phase = ControlPhase::PollCancellation;
            },
            (ControlPhase::Wait, ControlEvent::Done(Err(error))) => {
                self.fail(error);
            },
            _ => {},
        }
    }
}

proof fn lemma_reading_keeps_well_formed(control: ControlView)
    requires
        control.output.well_formed(),
        control.output_incomplete ==> control.status is Some,
        control.forced_at is Some ==> control.cancelled || control.output_incomplete,
        control.failure is None,
    ensures
        control.reading().well_formed(),
{
}

proof fn lemma_step_keeps_well_formed(control: ControlView, event: ControlEventView)
    requires
        control.well_formed(),
    ensures
        control.step(event).well_formed(),
{
    match (control.phase, event) {
        (ControlPhase::PollCancellation, ControlEventView::Cancellation(requested)) => {
            lemma_reading_keeps_well_formed(
                ControlView { output: control.output.turn(), ..control },
            );
        },
        (ControlPhase::MarkForced, ControlEventView::Clock(now)) => {
            lemma_reading_keeps_well_formed(
                ControlView {
                    output: control.output.turn(),
                    forced_at: Some(now),
                    ..control
                },
            );
        },
        (ControlPhase::Read, ControlEventView::Read(read)) => {
            lemma_reading_keeps_well_formed(
                ControlView { output: control.output.after_read(read), ..control },
            );
        },
        _ => {},
    }
}

/// Every event keeps what holds of a control: above all that one which ends
/// without having broken off has seen its command end, unless the command was
/// cancelled.
pub proof fn law_control_ends_behind_its_command(control: ControlView, event: ControlEventView)
    requires
        control.well_formed(),
    ensures
        control.step(event).well_formed(),
        control.step(event).phase == ControlPhase::Finished && control.step(event).failure is None
            ==> control.step(event).cancelled || control.step(event).status is Some,
{
    lemma_step_keeps_well_formed(control, event);
}

} // verus!

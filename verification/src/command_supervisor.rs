//! The supervisor of commands that could not be ended in time: it keeps them
//! until each is reaped, and admits no more than it can keep.

use crate::command_error::{CommandError, CommandErrorView};
use crate::command_seal;
use crate::command_seal::add_time;
use crate::io_failure;
use crate::io_failure::{IoFailure, IoFailureView};
use vstd::prelude::*;

verus! {

/// How many commands may run or be supervised at once.
pub const MAX_COMMAND_SUPERVISION_SLOTS: usize = 64;

/// How often the work on one command may fail in a row before no command is
/// admitted any more.
pub const MAX_COMMAND_PROCESSING_PANICS: u8 = 8;

/// How often a supervised command is signalled.
pub const MAX_TERMINATION_ATTEMPTS: u8 = 8;

/// The first delay behind a failure or a signal, in milliseconds.
pub const INITIAL_SUPERVISION_DELAY: u64 = 10;

/// The longest delay, in milliseconds.
pub const MAX_SUPERVISION_DELAY: u64 = 250;

/// A command under supervision.
#[derive(Clone, Copy, Debug, PartialEq, Eq, Structural)]
pub struct SupervisedCommand {
    /// The process that leads its group.
    pub id: u32,
    /// How often the work on it failed in a row.
    pub processing_panics: u8,
    pub termination_attempts_remaining: u8,
    pub retry_delay: u64,
    /// When it is looked at next.
    pub next_action: u64,
}

/// What is done for a command that is looked at.
#[derive(Clone, Copy, Debug, PartialEq, Eq, Structural)]
pub enum SupervisionAction {
    SealAndReap,
    TerminateGroup,
    Nothing,
}

/// Twice a delay, up to the longest one.
pub open spec fn doubled_delay(delay: u64) -> u64 {
    if delay >= 125 {
        MAX_SUPERVISION_DELAY
    } else {
        (delay * 2) as u64
    }
}

/// The delay behind the `count`th failure in a row.
pub open spec fn panic_delay(count: u8) -> u64 {
    if count <= 1 {
        10
    } else if count == 2 {
        20
    } else if count == 3 {
        40
    } else if count == 4 {
        80
    } else if count == 5 {
        160
    } else {
        250
    }
}

impl SupervisedCommand {
    /// A command that is looked at for the first time at `now`.
    pub fn new(id: u32, now: u64) -> (command: SupervisedCommand)
        ensures
            command == (SupervisedCommand {
                id,
                processing_panics: 0,
                termination_attempts_remaining: MAX_TERMINATION_ATTEMPTS,
                retry_delay: INITIAL_SUPERVISION_DELAY,
                next_action: now,
            }),
    {
        SupervisedCommand {
            id,
            processing_panics: 0,
            termination_attempts_remaining: MAX_TERMINATION_ATTEMPTS,
            retry_delay: INITIAL_SUPERVISION_DELAY,
            next_action: now,
        }
    }

    /// What is done for the command, whose leader has or has not ended.
    pub open spec fn wanted(self, leader_terminal: bool) -> SupervisionAction {
        if leader_terminal {
            SupervisionAction::SealAndReap
        } else if self.termination_attempts_remaining > 0 {
            SupervisionAction::TerminateGroup
        } else {
            SupervisionAction::Nothing
        }
    }

    /// What is done for the command, whose leader has or has not ended.
    pub fn action(&self, leader_terminal: bool) -> (action: SupervisionAction)
        ensures
            action == self.wanted(leader_terminal),
    {
        if leader_terminal {
            SupervisionAction::SealAndReap
        } else if self.termination_attempts_remaining > 0 {
            SupervisionAction::TerminateGroup
        } else {
            SupervisionAction::Nothing
        }
    }

    /// The command behind a look at it, unless it was reaped.
    pub open spec fn looked_at(self, now: u64, leader_terminal: bool) -> SupervisedCommand {
        match self.wanted(leader_terminal) {
            SupervisionAction::TerminateGroup => SupervisedCommand {
                processing_panics: 0,
                termination_attempts_remaining: (self.termination_attempts_remaining - 1) as u8,
                retry_delay: doubled_delay(self.retry_delay),
                next_action: command_seal::deadline_after(now, self.retry_delay),
                ..self
            },
            _ => SupervisedCommand {
                processing_panics: 0,
                next_action: command_seal::deadline_after(now, MAX_SUPERVISION_DELAY),
                ..self
            },
        }
    }

    /// Takes what a look at the command gave, and says whether it stays under
    /// supervision: all do but those that were reaped.
    pub fn supervise_command_once(&mut self, now: u64, leader_terminal: bool, reaped: bool) -> (
    stays: bool)
        ensures
            stays == !(leader_terminal && reaped),
            stays ==> *final(self) == old(self).looked_at(now, leader_terminal),
            !stays ==> *final(self) == *old(self),
    {
        if leader_terminal {
            if reaped {
                return false;
            }
            self.next_action = add_time(now, MAX_SUPERVISION_DELAY);
        } else if self.termination_attempts_remaining > 0 {
            self.termination_attempts_remaining = self.termination_attempts_remaining - 1;
            self.next_action = add_time(now, self.retry_delay);
            self.retry_delay = if self.retry_delay >= 125 {
                MAX_SUPERVISION_DELAY
            } else {
                self.retry_delay * 2
            };
        } else {
            self.next_action = add_time(now, MAX_SUPERVISION_DELAY);
        }
        self.processing_panics = 0;
        true
    }

    /// The number of failures in a row with one more.
    pub open spec fn panics_with_one_more(self) -> u8 {
        if self.processing_panics == u8::MAX {
            u8::MAX
        } else {
            (self.processing_panics + 1) as u8
        }
    }

    /// The command behind a failure of the work on it.
    pub open spec fn backed_off(self, now: u64) -> SupervisedCommand {
        SupervisedCommand {
            processing_panics: self.panics_with_one_more(),
            next_action: command_seal::deadline_after(
                now,
                panic_delay(self.panics_with_one_more()),
            ),
            ..self
        }
    }

    /// Whether it is looked at before, or together with, another one.
    pub open spec fn no_later_than(self, other: SupervisedCommand) -> bool {
        self.next_action < other.next_action || (self.next_action == other.next_action && self.id
            <= other.id)
    }
}

/// The place of the command that is looked at first, among those up to `count`.
pub open spec fn first_due(queue: Seq<SupervisedCommand>, count: int) -> int
    decreases count,
{
    if count <= 1 {
        0
    } else {
        let best = first_due(queue, count - 1);
        if queue[best].no_later_than(queue[count - 1]) {
            best
        } else {
            count - 1
        }
    }
}

/// The command that is looked at first is none later than any other.
pub proof fn law_first_due_is_first(queue: Seq<SupervisedCommand>, count: int)
    requires
        1 <= count <= queue.len(),
    ensures
        0 <= first_due(queue, count) < count,
        forall|at: int|
            0 <= at < count ==> (#[trigger] queue[first_due(queue, count)]).no_later_than(
                #[trigger] queue[at],
            ),
    decreases count,
{
    if count > 1 {
        law_first_due_is_first(queue, count - 1);
    }
}

/// What there is to do for the supervisor's worker.
#[derive(Clone, Copy, Debug, PartialEq, Eq, Structural)]
pub enum NextDue {
    /// Nothing, until a command comes.
    Idle,
    /// Nothing for so many milliseconds, unless a command comes.
    Wait(u64),
    /// A command is looked at.
    Due(SupervisedCommand),
}

/// The mathematical value of a [`CommandSupervisor`].
pub struct SupervisorView {
    /// The commands that wait to be looked at.
    pub queue: Seq<SupervisedCommand>,
    pub worker_running: bool,
    /// Whether no command is admitted any more.
    pub degraded: bool,
    /// The places that are taken.
    pub active_slots: nat,
}

impl SupervisorView {
    /// No more places are taken than there are.
    pub open spec fn well_formed(self) -> bool {
        self.active_slots <= MAX_COMMAND_SUPERVISION_SLOTS
    }

    /// What there is to do at `now`.
    pub open spec fn next_due(self, now: u64) -> NextDue {
        if self.queue.len() == 0 {
            NextDue::Idle
        } else {
            let first = self.queue[first_due(self.queue, self.queue.len() as int)];
            if first.next_action > now {
                NextDue::Wait((first.next_action - now) as u64)
            } else {
                NextDue::Due(first)
            }
        }
    }

    /// The error for which no place is given, where there is one.
    pub open spec fn admission_error(
        self,
        worker: Result<(), IoFailureView>,
    ) -> Option<CommandErrorView> {
        match worker {
            Err(source) => Some(CommandErrorView::SupervisorUnavailable(source)),
            Ok(()) => if self.degraded {
                Some(CommandErrorView::SupervisorDegraded)
            } else if self.active_slots >= MAX_COMMAND_SUPERVISION_SLOTS {
                Some(CommandErrorView::SupervisorAtCapacity)
            } else {
                None
            },
        }
    }
}

/// The supervisor of commands.
pub struct CommandSupervisor {
    queue: Vec<SupervisedCommand>,
    worker_running: bool,
    degraded: bool,
    active_slots: usize,
}

impl View for CommandSupervisor {
    type V = SupervisorView;

    closed spec fn view(&self) -> SupervisorView {
        SupervisorView {
            queue: self.queue@,
            worker_running: self.worker_running,
            degraded: self.degraded,
            active_slots: self.active_slots as nat,
        }
    }
}

impl CommandSupervisor {
    /// A supervisor without commands, whose worker does not run yet.
    pub fn new() -> (supervisor: CommandSupervisor)
        ensures
            supervisor@ == (SupervisorView {
                queue: Seq::empty(),
                worker_running: false,
                degraded: false,
                active_slots: 0,
            }),
            supervisor@.well_formed(),
    {
        CommandSupervisor {
            queue: Vec::new(),
            worker_running: false,
            degraded: false,
            active_slots: 0,
        }
    }

    /// Whether the worker has to be started. From here on it counts as running.
    pub fn begin_worker_start(&mut self) -> (start: bool)
        ensures
            start == !old(self)@.worker_running,
            final(self)@ == (SupervisorView { worker_running: true, ..old(self)@ }),
    {
        let start = !self.worker_running;
        self.worker_running = true;
        start
    }

    /// The worker could not be started, or stopped.
    pub fn worker_stopped(&mut self)
        ensures
            final(self)@ == (SupervisorView { worker_running: false, ..old(self)@ }),
    {
        self.worker_running = false;
    }

    /// Fails where the work on commands failed too often.
    pub fn ensure_admission_healthy(&self) -> (result: Result<(), CommandError>)
        ensures
            self@.degraded ==> result == Err::<(), CommandError>(CommandError::SupervisorDegraded),
            !self@.degraded ==> result == Ok::<(), CommandError>(()),
    {
        if self.degraded {
            Err(CommandError::SupervisorDegraded)
        } else {
            Ok(())
        }
    }

    /// Takes a place, where one is left.
    pub fn reserve_slot(&mut self) -> (result: Result<(), CommandError>)
        requires
            old(self)@.well_formed(),
        ensures
            final(self)@.well_formed(),
            match result {
                Ok(()) => old(self)@.active_slots < MAX_COMMAND_SUPERVISION_SLOTS && final(self)@
                    == (SupervisorView {
                    active_slots: old(self)@.active_slots + 1,
                    ..old(self)@
                }),
                Err(error) => error == CommandError::SupervisorAtCapacity
                    && old(self)@.active_slots == MAX_COMMAND_SUPERVISION_SLOTS && final(self)@
                    == old(self)@,
            },
    {
        if self.active_slots >= MAX_COMMAND_SUPERVISION_SLOTS {
            return Err(CommandError::SupervisorAtCapacity);
        }
        self.active_slots = self.active_slots + 1;
        Ok(())
    }

    /// Gives a place back.
    pub fn release_slot(&mut self)
        requires
            old(self)@.well_formed(),
            old(self)@.active_slots > 0,
        ensures
            final(self)@.well_formed(),
            final(self)@ == (SupervisorView {
                active_slots: (old(self)@.active_slots - 1) as nat,
                ..old(self)@
            }),
    {
        self.active_slots = self.active_slots - 1;
    }

    /// Takes a place for a command before it is started, where the worker runs,
    /// the supervisor is healthy and a place is left.
    pub fn prepare_command_supervision(&mut self, worker: Result<(), IoFailure>) -> (result: Result<
        (),
        CommandError,
    >)
        requires
            old(self)@.well_formed(),
        ensures
            final(self)@.well_formed(),
            match result {
                Ok(()) => old(self)@.admission_error(io_failure::call_view(worker)) is None
                    && final(self)@ == (SupervisorView {
                    active_slots: old(self)@.active_slots + 1,
                    ..old(self)@
                }),
                Err(error) => old(self)@.admission_error(io_failure::call_view(worker)) == Some(
                    error@,
                ) && final(self)@ == old(self)@,
            },
    {
        if let Err(source) = worker {
            return Err(CommandError::SupervisorUnavailable(source));
        }
        if let Err(error) = self.ensure_admission_healthy() {
            return Err(error);
        }
        self.reserve_slot()
    }

    /// Takes a command under supervision, or takes it back.
    pub fn enqueue(&mut self, command: SupervisedCommand)
        ensures
            final(self)@ == (SupervisorView {
                queue: old(self)@.queue.push(command),
                ..old(self)@
            }),
    {
        self.queue.push(command);
    }

    /// Takes out the command that is looked at next, where its time has come.
    pub fn take_next_due_command(&mut self, now: u64) -> (next: NextDue)
        ensures
            next == old(self)@.next_due(now),
            next is Due ==> final(self)@ == (SupervisorView {
                queue: old(self)@.queue.remove(
                    first_due(old(self)@.queue, old(self)@.queue.len() as int),
                ),
                ..old(self)@
            }),
            !(next is Due) ==> final(self)@ == old(self)@,
    {
        let length: usize = self.queue.len();
        if length == 0 {
            return NextDue::Idle;
        }
        let mut best: usize = 0;
        let mut at: usize = 1;
        while at < length
            invariant
                1 <= at <= length,
                length == self.queue@.len(),
                best < at,
                best == first_due(self.queue@, at as int),
                self@ == old(self)@,
            decreases length - at,
        {
            let found = self.queue[best];
            let other = self.queue[at];
            if !(found.next_action < other.next_action || (found.next_action == other.next_action
                && found.id <= other.id)) {
                best = at;
            }
            at = at + 1;
        }
        let first = self.queue[best];
        if first.next_action > now {
            return NextDue::Wait(first.next_action - now);
        }
        let command = self.queue.remove(best);
        NextDue::Due(command)
    }

    /// Takes a command back behind a failure of the work on it, and admits no
    /// command any more once the work failed too often.
    pub fn record_processing_panic(&mut self, command: SupervisedCommand, now: u64)
        ensures
            final(self)@ == (SupervisorView {
                queue: old(self)@.queue.push(command.backed_off(now)),
                degraded: old(self)@.degraded || command.panics_with_one_more()
                    >= MAX_COMMAND_PROCESSING_PANICS,
                ..old(self)@
            }),
    {
        let count: u8 = if command.processing_panics == u8::MAX {
            u8::MAX
        } else {
            command.processing_panics + 1
        };
        let delay: u64 = if count <= 1 {
            10
        } else if count == 2 {
            20
        } else if count == 3 {
            40
        } else if count == 4 {
            80
        } else if count == 5 {
            160
        } else {
            MAX_SUPERVISION_DELAY
        };
        if count >= MAX_COMMAND_PROCESSING_PANICS {
            self.degraded = true;
        }
        self.enqueue(
            SupervisedCommand {
                processing_panics: count,
                next_action: add_time(now, delay),
                ..command
            },
        );
    }
}

/// A look at a command never signals it more often than it has attempts left,
/// and waits no longer than the longest delay for the next look.
pub proof fn law_supervision_is_bounded(
    command: SupervisedCommand,
    now: u64,
    leader_terminal: bool,
)
    requires
        command.retry_delay <= MAX_SUPERVISION_DELAY,
    ensures
        command.looked_at(now, leader_terminal).termination_attempts_remaining
            <= command.termination_attempts_remaining,
        command.wanted(leader_terminal) == SupervisionAction::TerminateGroup
            ==> command.looked_at(now, leader_terminal).termination_attempts_remaining
            < command.termination_attempts_remaining,
        command.looked_at(now, leader_terminal).retry_delay <= MAX_SUPERVISION_DELAY,
        command.looked_at(now, leader_terminal).next_action <= now + MAX_SUPERVISION_DELAY,
{
}

/// Failures in a row put a command off ever longer, up to the longest delay, so
/// that it cannot keep the worker from the other ones.
pub proof fn law_failing_commands_back_off(command: SupervisedCommand, now: u64)
    requires
        now + MAX_SUPERVISION_DELAY <= u64::MAX,
    ensures
        now + INITIAL_SUPERVISION_DELAY <= command.backed_off(now).next_action <= now
            + MAX_SUPERVISION_DELAY,
        command.backed_off(now).next_action <= command.backed_off(now).backed_off(now).next_action,
{
}

} // verus!

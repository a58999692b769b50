//! Waiting for the end of a process group: its leader is watched without being
//! reaped, and is reaped only when no tracked descendant is left.

use crate::capture::{ReadView, StreamRead};
use crate::command_control;
use crate::command_control::ExitOutcome;
use crate::command_error;
use crate::command_error::{CommandError, CommandErrorView};
use crate::command_group;
use crate::command_group::{
    terminate_signal_compatible_group_after_leader_exit, MAX_LEADER_POLL_INTERVAL,
    TERMINAL_GROUP_SEAL_ROUNDS,
};
use crate::io_failure;
use crate::io_failure::{ErrorKind, IoFailure, IoFailureView};
use vstd::prelude::*;

verus! {

/// What the bounded watch of a leader waits for.
#[derive(Clone, Copy, Debug, PartialEq, Eq, Structural)]
pub enum WatchPhase {
    Observe,
    ReadClock,
    /// A sleep of so many milliseconds.
    Sleep(u64),
    Finished,
}

/// What was found for the watch of a leader.
#[derive(Debug, PartialEq, Eq)]
pub enum WatchEvent {
    Observed(Result<bool, CommandError>),
    Clock(u64),
    Slept,
}

/// The mathematical value of a [`WatchEvent`].
pub enum WatchEventView {
    Observed(Result<bool, CommandErrorView>),
    Clock(u64),
    Slept,
}

impl View for WatchEvent {
    type V = WatchEventView;

    open spec fn view(&self) -> WatchEventView {
        match *self {
            WatchEvent::Observed(found) => {
                WatchEventView::Observed(command_error::outcome_view(found))
            },
            WatchEvent::Clock(now) => WatchEventView::Clock(now),
            WatchEvent::Slept => WatchEventView::Slept,
        }
    }
}

/// The mathematical value of a [`LeaderWatch`].
pub struct WatchView {
    pub grace: u64,
    pub started: u64,
    pub interval: u64,
    pub phase: WatchPhase,
    /// Whether the leader has ended.
    pub ended: bool,
    pub failure: Option<CommandErrorView>,
}

/// The sleep behind one of `interval` milliseconds.
pub open spec fn next_leader_interval(interval: u64) -> u64 {
    if interval >= 5 {
        MAX_LEADER_POLL_INTERVAL
    } else {
        (interval * 2) as u64
    }
}

impl WatchView {
    /// How an event moves the watch on. An event that it does not wait for
    /// leaves it where it is.
    pub open spec fn step(self, event: WatchEventView) -> WatchView {
        match (self.phase, event) {
            (WatchPhase::Observe, WatchEventView::Observed(Ok(true))) => WatchView {
                ended: true,
                phase: WatchPhase::Finished,
                ..self
            },
            (WatchPhase::Observe, WatchEventView::Observed(Ok(false))) => WatchView {
                phase: WatchPhase::ReadClock,
                ..self
            },
            (WatchPhase::Observe, WatchEventView::Observed(Err(error))) => WatchView {
                failure: Some(error),
                phase: WatchPhase::Finished,
                ..self
            },
            (WatchPhase::ReadClock, WatchEventView::Clock(now)) => if command_control::elapsed(
                self.started,
                now,
            ) >= self.grace {
                WatchView { phase: WatchPhase::Finished, ..self }
            } else {
                WatchView { phase: WatchPhase::Sleep(self.interval), ..self }
            },
            (WatchPhase::Sleep(_), WatchEventView::Slept) => WatchView {
                interval: next_leader_interval(self.interval),
                phase: WatchPhase::Observe,
                ..self
            },
            _ => self,
        }
    }

    /// Whether the leader ended in time.
    pub open spec fn outcome(self) -> Result<bool, CommandErrorView> {
        match self.failure {
            Some(error) => Err(error),
            None => Ok(self.ended),
        }
    }
}

/// A bounded watch for the end of a leader.
pub struct LeaderWatch {
    grace: u64,
    started: u64,
    interval: u64,
    phase: WatchPhase,
    ended: bool,
    failure: Option<CommandError>,
}

impl View for LeaderWatch {
    type V = WatchView;

    closed spec fn view(&self) -> WatchView {
        WatchView {
            grace: self.grace,
            started: self.started,
            interval: self.interval,
            phase: self.phase,
            ended: self.ended,
            failure: match self.failure {
                Some(error) => Some(error@),
                None => None,
            },
        }
    }
}

impl LeaderWatch {
    /// A watch that begins at `started` and lasts `grace` milliseconds.
    pub fn new(started: u64, grace: u64) -> (watch: LeaderWatch)
        ensures
            watch@ == (WatchView {
                grace,
                started,
                interval: 1,
                phase: WatchPhase::Observe,
                ended: false,
                failure: None,
            }),
    {
        LeaderWatch {
            grace,
            started,
            interval: 1,
            phase: WatchPhase::Observe,
            ended: false,
            failure: None,
        }
    }

    /// What the watch waits for.
    pub fn phase(&self) -> (phase: WatchPhase)
        ensures
            phase == self@.phase,
    {
        self.phase
    }

    /// Takes an event.
    pub fn advance(&mut self, event: WatchEvent)
        ensures
            final(self)@ == old(self)@.step(event@),
    {
        match (self.phase, event) {
            (WatchPhase::Observe, WatchEvent::Observed(Ok(true))) => {
                self.ended = true;
                self.phase = WatchPhase::Finished;
            },
            (WatchPhase::Observe, WatchEvent::Observed(Ok(false))) => {
                self.phase = WatchPhase::ReadClock;
            },
            (WatchPhase::Observe, WatchEvent::Observed(Err(error))) => {
                self.failure = Some(error);
                self.phase = WatchPhase::Finished;
            },
            (WatchPhase::ReadClock, WatchEvent::Clock(now)) => {
                let passed: u64 = if now >= self.started {
                    now - self.started
                } else {
                    0
                };
                self.phase = if passed >= self.grace {
                    WatchPhase::Finished
                } else {
                    WatchPhase::Sleep(self.interval)
                };
            },
            (WatchPhase::Sleep(_), WatchEvent::Slept) => {
                self.interval = if self.interval >= 5 {
                    MAX_LEADER_POLL_INTERVAL
                } else {
                    self.interval * 2
                };
                self.phase = WatchPhase::Observe;
            },
            _ => {},
        }
    }

    /// Whether the leader ended in time.
    pub fn outcome(self) -> (outcome: Result<bool, CommandError>)
        ensures
            command_error::outcome_view(outcome) == self@.outcome(),
    {
        match self.failure {
            Some(error) => Err(error),
            None => Ok(self.ended),
        }
    }
}

/// What one read of a descendant token says: it is closed when its end was
/// read.
pub open spec fn token_reading(read: ReadView) -> Result<bool, CommandErrorView> {
    match read {
        ReadView::Bytes(bytes) => Ok(bytes.len() == 0),
        ReadView::End => Ok(true),
        ReadView::Failed(source) => if source.kind == ErrorKind::Interrupted || source.kind
            == ErrorKind::WouldBlock {
            Ok(false)
        } else {
            Err(CommandErrorView::ReadOutput(source))
        },
    }
}

/// Executable form of [`token_reading`].
pub fn observe_close(read: StreamRead) -> (closed: Result<bool, CommandError>)
    ensures
        command_error::outcome_view(closed) == token_reading(read@),
{
    match read {
        StreamRead::Bytes(bytes) => Ok(bytes.len() == 0),
        StreamRead::End => Ok(true),
        StreamRead::Failed(source) => if source.kind == ErrorKind::Interrupted || source.kind
            == ErrorKind::WouldBlock {
            Ok(false)
        } else {
            Err(CommandError::ReadOutput(source))
        },
    }
}

/// What the bounded watch of a descendant token waits for.
#[derive(Clone, Copy, Debug, PartialEq, Eq, Structural)]
pub enum TokenPhase {
    /// A read of the token.
    Observe,
    ReadClock,
    /// A poll of so many milliseconds.
    Poll(u64),
    /// The read that settles the watch.
    ObserveLast,
    Finished,
}

/// What was found for the watch of a descendant token.
#[derive(Debug, PartialEq, Eq)]
pub enum TokenEvent {
    Read(StreamRead),
    Clock(u64),
    Polled(Result<(), IoFailure>),
}

/// The mathematical value of a [`TokenEvent`].
pub enum TokenEventView {
    Read(ReadView),
    Clock(u64),
    Polled(Result<(), IoFailureView>),
}

impl View for TokenEvent {
    type V = TokenEventView;

    open spec fn view(&self) -> TokenEventView {
        match *self {
            TokenEvent::Read(read) => TokenEventView::Read(read@),
            TokenEvent::Clock(now) => TokenEventView::Clock(now),
            TokenEvent::Polled(polled) => TokenEventView::Polled(io_failure::call_view(polled)),
        }
    }
}

/// The mathematical value of a [`TokenWatch`].
pub struct TokenWatchView {
    pub timeout: u64,
    pub deadline: Option<u64>,
    pub phase: TokenPhase,
    /// Whether the token is closed.
    pub closed: bool,
    pub failure: Option<CommandErrorView>,
}

/// The time `timeout` behind `now`, as far as times reach.
pub open spec fn deadline_after(now: u64, timeout: u64) -> u64 {
    if now + timeout > u64::MAX {
        u64::MAX
    } else {
        (now + timeout) as u64
    }
}

/// Executable form of [`deadline_after`].
pub fn add_time(now: u64, timeout: u64) -> (deadline: u64)
    ensures
        deadline == deadline_after(now, timeout),
{
    if now > u64::MAX - timeout {
        u64::MAX
    } else {
        now + timeout
    }
}

impl TokenWatchView {
    /// Behind a read of the token: the first read goes on where the token is
    /// open, the last one does not.
    pub open spec fn after_read(self, read: ReadView, last: bool) -> TokenWatchView {
        match token_reading(read) {
            Ok(closed) => TokenWatchView {
                closed,
                phase: if closed || last {
                    TokenPhase::Finished
                } else {
                    TokenPhase::ReadClock
                },
                ..self
            },
            Err(error) => TokenWatchView {
                failure: Some(error),
                phase: TokenPhase::Finished,
                ..self
            },
        }
    }

    /// Behind a look at the clock: the time that is left is polled for.
    pub open spec fn after_clock(self, now: u64) -> TokenWatchView {
        let deadline = match self.deadline {
            Some(deadline) => deadline,
            None => deadline_after(now, self.timeout),
        };
        TokenWatchView {
            deadline: Some(deadline),
            phase: if deadline <= now {
                TokenPhase::ObserveLast
            } else {
                TokenPhase::Poll((deadline - now) as u64)
            },
            ..self
        }
    }

    /// How an event moves the watch on. An event that it does not wait for
    /// leaves it where it is.
    pub open spec fn step(self, event: TokenEventView) -> TokenWatchView {
        match (self.phase, event) {
            (TokenPhase::Observe, TokenEventView::Read(read)) => self.after_read(read, false),
            (TokenPhase::ObserveLast, TokenEventView::Read(read)) => self.after_read(read, true),
            (TokenPhase::ReadClock, TokenEventView::Clock(now)) => self.after_clock(now),
            (TokenPhase::Poll(_), TokenEventView::Polled(Ok(()))) => TokenWatchView {
                phase: TokenPhase::ObserveLast,
                ..self
            },
            (TokenPhase::Poll(_), TokenEventView::Polled(Err(source))) => if source.kind
                == ErrorKind::Interrupted {
                TokenWatchView { phase: TokenPhase::ReadClock, ..self }
            } else {
                TokenWatchView {
                    failure: Some(CommandErrorView::ReadOutput(source)),
                    phase: TokenPhase::Finished,
                    ..self
                }
            },
            _ => self,
        }
    }

    /// Whether the token was closed in time.
    pub open spec fn outcome(self) -> Result<bool, CommandErrorView> {
        match self.failure {
            Some(error) => Err(error),
            None => Ok(self.closed),
        }
    }
}

/// A bounded watch for the close of a descendant token, which every tracked
/// descendant holds open.
pub struct TokenWatch {
    timeout: u64,
    deadline: Option<u64>,
    phase: TokenPhase,
    closed: bool,
    failure: Option<CommandError>,
}

impl View for TokenWatch {
    type V = TokenWatchView;

    closed spec fn view(&self) -> TokenWatchView {
        TokenWatchView {
            timeout: self.timeout,
            deadline: self.deadline,
            phase: self.phase,
            closed: self.closed,
            failure: match self.failure {
                Some(error) => Some(error@),
                None => None,
            },
        }
    }
}

impl TokenWatch {
    /// A watch of `timeout` milliseconds, which is over at once where the token
    /// is known to be closed.
    pub fn new(closed: bool, timeout: u64) -> (watch: TokenWatch)
        ensures
            watch@ == (TokenWatchView {
                timeout,
                deadline: None,
                phase: if closed {
                    TokenPhase::Finished
                } else {
                    TokenPhase::Observe
                },
                closed,
                failure: None,
            }),
    {
        TokenWatch {
            timeout,
            deadline: None,
            phase: if closed {
                TokenPhase::Finished
            } else {
                TokenPhase::Observe
            },
            closed,
            failure: None,
        }
    }

    /// What the watch waits for.
    pub fn phase(&self) -> (phase: TokenPhase)
        ensures
            phase == self@.phase,
    {
        self.phase
    }

    fn after_read(&mut self, read: StreamRead, last: bool)
        ensures
            final(self)@ == old(self)@.after_read(read@, last),
    {
        match observe_close(read) {
            Ok(closed) => {
                self.closed = closed;
                self.phase = if closed || last {
                    TokenPhase::Finished
                } else {
                    TokenPhase::ReadClock
                };
            },
            Err(error) => {
                self.failure = Some(error);
                self.phase = TokenPhase::Finished;
            },
        }
    }

    /// Takes an event.
    pub fn advance(&mut self, event: TokenEvent)
        ensures
            final(self)@ == old(self)@.step(event@),
    {
        match (self.phase, event) {
            (TokenPhase::Observe, TokenEvent::Read(read)) => {
                self.after_read(read, false);
            },
            (TokenPhase::ObserveLast, TokenEvent::Read(read)) => {
                self.after_read(read, true);
            },
            (TokenPhase::ReadClock, TokenEvent::Clock(now)) => {
                let deadline: u64 = match self.deadline {
                    Some(deadline) => deadline,
                    None => add_time(now, self.timeout),
                };
                self.deadline = Some(deadline);
                self.phase = if deadline <= now {
                    TokenPhase::ObserveLast
                } else {
                    TokenPhase::Poll(deadline - now)
                };
            },
            (TokenPhase::Poll(_), TokenEvent::Polled(Ok(()))) => {
                self.phase = TokenPhase::ObserveLast;
            },
            (TokenPhase::Poll(_), TokenEvent::Polled(Err(source))) => {
                if source.is_interrupted() {
                    self.phase = TokenPhase::ReadClock;
                } else {
                    self.failure = Some(CommandError::ReadOutput(source));
                    self.phase = TokenPhase::Finished;
                }
            },
            _ => {},
        }
    }

    /// Whether the token was closed in time.
    pub fn outcome(self) -> (outcome: Result<bool, CommandError>)
        ensures
            command_error::outcome_view(outcome) == self@.outcome(),
    {
        match self.failure {
            Some(error) => Err(error),
            None => Ok(self.closed),
        }
    }
}

/// What the sealing of a group waits for.
#[derive(Clone, Copy, Debug, PartialEq, Eq, Structural)]
pub enum SealPhase {
    /// The group is left to settle, and terminated.
    Terminate,
    /// The descendant token is watched.
    AwaitToken,
    /// The leader is reaped.
    Reap,
    Finished,
}

/// What was found for the sealing of a group.
#[derive(Debug, PartialEq, Eq)]
pub enum SealEvent {
    Terminated(Result<(), CommandError>),
    TokenClosed(Result<bool, CommandError>),
    Reaped(Result<ExitOutcome, CommandError>),
}

/// The mathematical value of a [`SealEvent`].
pub enum SealEventView {
    Terminated(Result<(), CommandErrorView>),
    TokenClosed(Result<bool, CommandErrorView>),
    Reaped(Result<ExitOutcome, CommandErrorView>),
}

impl View for SealEvent {
    type V = SealEventView;

    open spec fn view(&self) -> SealEventView {
        match *self {
            SealEvent::Terminated(sent) => {
                SealEventView::Terminated(command_error::outcome_view(sent))
            },
            SealEvent::TokenClosed(closed) => {
                SealEventView::TokenClosed(command_error::outcome_view(closed))
            },
            SealEvent::Reaped(status) => {
                SealEventView::Reaped(command_error::outcome_view(status))
            },
        }
    }
}

/// The mathematical value of a [`GroupSeal`].
pub struct SealView {
    /// Whether descendants hold a token.
    pub has_token: bool,
    pub token_closed: bool,
    pub round: nat,
    pub phase: SealPhase,
    pub status: Option<ExitOutcome>,
    pub failure: Option<CommandErrorView>,
}

impl SealView {
    /// What holds in every state: a tracked group is reaped only when its token
    /// was seen closed.
    pub open spec fn well_formed(self) -> bool {
        &&& self.round < TERMINAL_GROUP_SEAL_ROUNDS
        &&& self.phase == SealPhase::AwaitToken ==> self.has_token
        &&& self.phase == SealPhase::Reap || self.status is Some ==> !self.has_token
            || self.token_closed
        &&& self.failure is Some ==> self.status is None
        &&& self.status is Some || self.failure is Some <==> self.phase == SealPhase::Finished
    }

    pub open spec fn failed(self, error: CommandErrorView) -> SealView {
        SealView { phase: SealPhase::Finished, failure: Some(error), ..self }
    }

    /// The next round, or what follows the last one: a tracked group whose
    /// token stayed open is not verified.
    pub open spec fn next_round(self) -> SealView {
        if self.round + 1 < TERMINAL_GROUP_SEAL_ROUNDS {
            SealView { round: self.round + 1, phase: SealPhase::Terminate, ..self }
        } else if self.has_token {
            self.failed(CommandErrorView::TerminationUnverified)
        } else {
            SealView { phase: SealPhase::Reap, ..self }
        }
    }

    /// How an event moves the sealing on. An event that it does not wait for
    /// leaves it where it is.
    pub open spec fn step(self, event: SealEventView) -> SealView {
        match (self.phase, event) {
            (SealPhase::Terminate, SealEventView::Terminated(sent)) => {
                match command_group::after_leader_exit(sent) {
                    Err(error) => self.failed(error),
                    Ok(()) => if self.has_token {
                        SealView { phase: SealPhase::AwaitToken, ..self }
                    } else {
                        self.next_round()
                    },
                }
            },
            (SealPhase::AwaitToken, SealEventView::TokenClosed(Ok(true))) => SealView {
                token_closed: true,
                phase: SealPhase::Reap,
                ..self
            },
            (SealPhase::AwaitToken, SealEventView::TokenClosed(Ok(false))) => self.next_round(),
            (SealPhase::AwaitToken, SealEventView::TokenClosed(Err(error))) => self.failed(error),
            (SealPhase::Reap, SealEventView::Reaped(Ok(status))) => SealView {
                status: Some(status),
                phase: SealPhase::Finished,
                ..self
            },
            (SealPhase::Reap, SealEventView::Reaped(Err(error))) => self.failed(error),
            _ => self,
        }
    }
}

/// The sealing and reaping of a group whose leader has ended.
pub struct GroupSeal {
    has_token: bool,
    token_closed: bool,
    round: usize,
    phase: SealPhase,
    status: Option<ExitOutcome>,
    failure: Option<CommandError>,
}

impl View for GroupSeal {
    type V = SealView;

    closed spec fn view(&self) -> SealView {
        SealView {
            has_token: self.has_token,
            token_closed: self.token_closed,
            round: self.round as nat,
            phase: self.phase,
            status: self.status,
            failure: match self.failure {
                Some(error) => Some(error@),
                None => None,
            },
        }
    }
}

impl GroupSeal {
    /// The sealing of a group, whose descendants may hold a token.
    pub fn new(has_token: bool, token_closed: bool) -> (seal: GroupSeal)
        ensures
            seal@ == (SealView {
                has_token,
                token_closed,
                round: 0,
                phase: SealPhase::Terminate,
                status: None,
                failure: None,
            }),
            seal@.well_formed(),
    {
        GroupSeal {
            has_token,
            token_closed,
            round: 0,
            phase: SealPhase::Terminate,
            status: None,
            failure: None,
        }
    }

    /// What the sealing waits for.
    pub fn phase(&self) -> (phase: SealPhase)
        ensures
            phase == self@.phase,
    {
        self.phase
    }

    /// Whether the group's token was seen closed.
    pub fn tracked_descendants_are_sealed(&self) -> (result: bool)
        ensures
            result == (self@.has_token && self@.token_closed),
    {
        self.has_token && self.token_closed
    }

    fn fail(&mut self, error: CommandError)
        ensures
            final(self)@ == old(self)@.failed(error@),
    {
        self.failure = Some(error);
        self.phase = SealPhase::Finished;
    }

    fn next_round(&mut self)
        requires
            old(self)@.well_formed(),
        ensures
            final(self)@ == old(self)@.next_round(),
    {
        if self.round + 1 < TERMINAL_GROUP_SEAL_ROUNDS {
            self.round = self.round + 1;
            self.phase = SealPhase::Terminate;
        } else if self.has_token {
            self.fail(CommandError::TerminationUnverified);
        } else {
            self.phase = SealPhase::Reap;
        }
    }

    /// Takes an event.
    pub fn advance(&mut self, event: SealEvent)
        requires
            old(self)@.well_formed(),
        ensures
            final(self)@ == old(self)@.step(event@),
            final(self)@.well_formed(),
    {
        match (self.phase, event) {
            (SealPhase::Terminate, SealEvent::Terminated(sent)) => {
                match terminate_signal_compatible_group_after_leader_exit(sent) {
                    Err(error) => {
                        self.fail(error);
                    },
                    Ok(()) => {
                        if self.has_token {
                            self.phase = SealPhase::AwaitToken;
                        } else {
                            self.next_round();
                        }
                    },
                }
            },
            (SealPhase::AwaitToken, SealEvent::TokenClosed(Ok(true))) => {
                self.token_closed = true;
                self.phase = SealPhase::Reap;
            },
            (SealPhase::AwaitToken, SealEvent::TokenClosed(Ok(false))) => {
                self.next_round();
            },
            (SealPhase::AwaitToken, SealEvent::TokenClosed(Err(error))) => {
                self.fail(error);
            },
            (SealPhase::Reap, SealEvent::Reaped(Ok(status))) => {
                self.status = Some(status);
                self.phase = SealPhase::Finished;
            },
            (SealPhase::Reap, SealEvent::Reaped(Err(error))) => {
                self.fail(error);
            },
            _ => {},
        }
    }

    /// How the leader ended, once the sealing is over.
    pub fn outcome(self) -> (outcome: Option<Result<ExitOutcome, CommandError>>)
        ensures
            match outcome {
                Some(Ok(status)) => self@.failure is None && self@.status == Some(status),
                Some(Err(error)) => self@.failure == Some(error@),
                None => self@.failure is None && self@.status is None,
            },
    {
        match self.failure {
            Some(error) => Some(Err(error)),
            None => match self.status {
                Some(status) => Some(Ok(status)),
                None => None,
            },
        }
    }
}

/// The leader of a tracked group is never reaped before its descendant token
/// was seen closed, whatever is found on the way.
pub proof fn law_open_tokens_prevent_the_reap(seal: SealView, event: SealEventView)
    requires
        seal.well_formed(),
    ensures
        seal.step(event).well_formed(),
        seal.step(event).status is Some && seal.has_token ==> seal.step(event).token_closed,
        seal.step(event).phase == SealPhase::Reap && seal.has_token ==> seal.step(event).token_closed,
        seal.step(event).has_token == seal.has_token,
{
}

} // verus!

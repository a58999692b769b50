//! What a run is called, how it stands, and the events that it records.

use crate::model;
use crate::model::{Extensions, ExtensionsView, ModelStreamEvent, StreamEventView};
use crate::text;
use crate::text::{decimal, pad_zeros, same_text};
use crate::tool::{OutputView, ToolOutput};
use vstd::prelude::*;
use vstd::std_specs::cmp::{PartialEqSpec, PartialEqSpecImpl};

verus! {

/// The name of a run.
#[derive(Clone, Debug, Eq, Hash)]
pub struct RunId(String);

impl PartialEq for RunId {
    fn eq(&self, other: &RunId) -> (equal: bool) {
        same_text(self.0.as_str(), other.0.as_str())
    }
}

impl PartialEqSpecImpl for RunId {
    open spec fn obeys_eq_spec() -> bool {
        true
    }

    open spec fn eq_spec(&self, other: &RunId) -> bool {
        self@ == other@
    }
}

impl View for RunId {
    type V = Seq<char>;

    closed spec fn view(&self) -> Seq<char> {
        self.0@
    }
}

impl RunId {
    /// The run of that name.
    pub fn new(value: String) -> (id: RunId)
        ensures
            id@ == value@,
    {
        RunId(value)
    }

    /// The name as text.
    pub fn as_str(&self) -> (text: &str)
        ensures
            text@ == self@,
    {
        self.0.as_str()
    }

    /// A copy.
    pub fn copy(&self) -> (copy: RunId)
        ensures
            copy@ == self@,
    {
        RunId(self.0.as_str().to_owned())
    }
}

/// Two names of runs are equal exactly where their texts are.
pub proof fn law_runs_are_told_apart_by_their_names(first: RunId, second: RunId)
    ensures
        PartialEqSpec::eq_spec(&first, &second) <==> first@ == second@,
{
}

/// The name of a turn within its run.
#[derive(Clone, Debug, PartialEq, Eq, Hash)]
pub struct TurnId(String);

impl View for TurnId {
    type V = Seq<char>;

    closed spec fn view(&self) -> Seq<char> {
        self.0@
    }
}

impl TurnId {
    /// The turn of that name.
    pub fn new(value: String) -> (id: TurnId)
        ensures
            id@ == value@,
    {
        TurnId(value)
    }

    /// The name as text.
    pub fn as_str(&self) -> (text: &str)
        ensures
            text@ == self@,
    {
        self.0.as_str()
    }

    /// A copy.
    pub fn copy(&self) -> (copy: TurnId)
        ensures
            copy@ == self@,
    {
        TurnId(self.0.as_str().to_owned())
    }
}

/// A number of at least three digits behind a text.
pub open spec fn numbered(prefix: Seq<char>, number: nat) -> Seq<char> {
    prefix + text::zero_padded(text::decimal_text(number), 3)
}

/// Executable form of [`numbered`].
pub fn numbered_text(prefix: &str, number: u64) -> (name: String)
    ensures
        name@ == numbered(prefix@, number as nat),
{
    let digits = decimal(number as u128);
    let padded = pad_zeros(digits.as_str(), 3);
    text::concat2(prefix, padded.as_str())
}

/// The place of an event within its run, counted from one.
#[derive(Clone, Copy, Debug, PartialEq, Eq, Structural)]
pub struct EventSequence {
    pub number: u64,
}

/// A call of a tool. The arguments are JSON text.
#[derive(Clone, Debug, PartialEq, Eq)]
pub struct ToolCall {
    pub id: String,
    pub tool_name: String,
    pub arguments: String,
}

/// The mathematical value of a [`ToolCall`].
pub struct ToolCallView {
    pub id: Seq<char>,
    pub tool_name: Seq<char>,
    pub arguments: Seq<char>,
}

impl View for ToolCall {
    type V = ToolCallView;

    open spec fn view(&self) -> ToolCallView {
        ToolCallView { id: self.id@, tool_name: self.tool_name@, arguments: self.arguments@ }
    }
}

impl ToolCall {
    /// A copy.
    pub fn copy(&self) -> (copy: ToolCall)
        ensures
            copy@ == self@,
    {
        ToolCall {
            id: self.id.as_str().to_owned(),
            tool_name: self.tool_name.as_str().to_owned(),
            arguments: self.arguments.as_str().to_owned(),
        }
    }
}

/// An error of a run.
#[derive(Clone, Debug, PartialEq, Eq)]
pub struct AgentError {
    pub code: String,
    pub message: String,
    /// Whether the run goes on behind it.
    pub recoverable: bool,
}

/// The mathematical value of an [`AgentError`].
pub struct AgentErrorView {
    pub code: Seq<char>,
    pub message: Seq<char>,
    pub recoverable: bool,
}

impl View for AgentError {
    type V = AgentErrorView;

    open spec fn view(&self) -> AgentErrorView {
        AgentErrorView { code: self.code@, message: self.message@, recoverable: self.recoverable }
    }
}

impl AgentError {
    /// A copy.
    pub fn copy(&self) -> (copy: AgentError)
        ensures
            copy@ == self@,
    {
        AgentError {
            code: self.code.as_str().to_owned(),
            message: self.message.as_str().to_owned(),
            recoverable: self.recoverable,
        }
    }
}

/// How a run ended.
#[derive(Clone, Debug, PartialEq, Eq)]
pub enum TerminalRunStatus {
    Completed { final_message: String },
    Failed { error: AgentError },
    Interrupted { reason: String },
    Cancelled { reason: String },
}

/// The mathematical value of a [`TerminalRunStatus`].
pub enum TerminalView {
    Completed { final_message: Seq<char> },
    Failed { error: AgentErrorView },
    Interrupted { reason: Seq<char> },
    Cancelled { reason: Seq<char> },
}

impl View for TerminalRunStatus {
    type V = TerminalView;

    open spec fn view(&self) -> TerminalView {
        match *self {
            TerminalRunStatus::Completed { final_message } => TerminalView::Completed {
                final_message: final_message@,
            },
            TerminalRunStatus::Failed { error } => TerminalView::Failed { error: error@ },
            TerminalRunStatus::Interrupted { reason } => TerminalView::Interrupted {
                reason: reason@,
            },
            TerminalRunStatus::Cancelled { reason } => TerminalView::Cancelled { reason: reason@ },
        }
    }
}

impl TerminalView {
    /// Whether the run was asked to stop.
    pub open spec fn is_stop(self) -> bool {
        self is Interrupted || self is Cancelled
    }
}

impl TerminalRunStatus {
    /// A copy.
    pub fn copy(&self) -> (copy: TerminalRunStatus)
        ensures
            copy@ == self@,
    {
        match self {
            TerminalRunStatus::Completed { final_message } => TerminalRunStatus::Completed {
                final_message: final_message.as_str().to_owned(),
            },
            TerminalRunStatus::Failed { error } => TerminalRunStatus::Failed {
                error: error.copy(),
            },
            TerminalRunStatus::Interrupted { reason } => TerminalRunStatus::Interrupted {
                reason: reason.as_str().to_owned(),
            },
            TerminalRunStatus::Cancelled { reason } => TerminalRunStatus::Cancelled {
                reason: reason.as_str().to_owned(),
            },
        }
    }

    /// Whether the run was asked to stop.
    pub fn is_stop(&self) -> (result: bool)
        ensures
            result == self@.is_stop(),
    {
        match self {
            TerminalRunStatus::Interrupted { .. } => true,
            TerminalRunStatus::Cancelled { .. } => true,
            _ => false,
        }
    }
}

/// How a run stands.
#[derive(Clone, Debug, PartialEq, Eq)]
pub enum RunStatus {
    Running,
    AwaitingApproval,
    /// The results of some calls may or may not be recorded.
    RecoveryRequired { call_ids: Vec<String> },
    Finished { terminal_status: TerminalRunStatus },
}

/// What a person is asked to approve.
#[derive(Clone, Debug, PartialEq, Eq)]
pub struct ApprovalRequest {
    pub id: String,
    pub call: ToolCall,
    pub reason: String,
}

/// The mathematical value of an [`ApprovalRequest`].
pub struct ApprovalView {
    pub id: Seq<char>,
    pub call: ToolCallView,
    pub reason: Seq<char>,
}

impl View for ApprovalRequest {
    type V = ApprovalView;

    open spec fn view(&self) -> ApprovalView {
        ApprovalView { id: self.id@, call: self.call@, reason: self.reason@ }
    }
}

/// What was decided about an approval.
#[derive(Clone, Debug, PartialEq, Eq)]
pub enum ApprovalDecision {
    Approve,
    Deny { reason: String },
}

/// The mathematical value of an [`ApprovalDecision`].
pub enum DecisionView {
    Approve,
    Deny { reason: Seq<char> },
}

impl View for ApprovalDecision {
    type V = DecisionView;

    open spec fn view(&self) -> DecisionView {
        match *self {
            ApprovalDecision::Approve => DecisionView::Approve,
            ApprovalDecision::Deny { reason } => DecisionView::Deny { reason: reason@ },
        }
    }
}

/// What a tool call came to, with the call that it answers.
#[derive(Clone, Debug, PartialEq, Eq)]
pub struct ToolResult {
    pub call_id: String,
    pub output: ToolOutput,
}

/// The mathematical value of a [`ToolResult`].
pub struct ToolResultView {
    pub call_id: Seq<char>,
    pub output: OutputView,
}

impl View for ToolResult {
    type V = ToolResultView;

    open spec fn view(&self) -> ToolResultView {
        ToolResultView { call_id: self.call_id@, output: self.output@ }
    }
}

/// An event of a run.
#[derive(Clone, Debug, PartialEq, Eq)]
pub enum AgentEvent {
    RunStarted { run_id: RunId, extensions: Extensions },
    TurnStarted { run_id: RunId, turn_id: TurnId, extensions: Extensions },
    ModelOutput { run_id: RunId, turn_id: TurnId, event: ModelStreamEvent, extensions: Extensions },
    /// A call of the model, and the call of the run that stands for it.
    ToolCallRequested {
        run_id: RunId,
        turn_id: TurnId,
        model_tool_call_id: String,
        call: ToolCall,
        extensions: Extensions,
    },
    ApprovalRequested {
        run_id: RunId,
        turn_id: TurnId,
        request: ApprovalRequest,
        extensions: Extensions,
    },
    ApprovalResolved {
        run_id: RunId,
        turn_id: TurnId,
        approval_id: String,
        decision: ApprovalDecision,
        extensions: Extensions,
    },
    ToolResult { run_id: RunId, turn_id: TurnId, result: ToolResult, extensions: Extensions },
    Error { run_id: RunId, turn_id: Option<TurnId>, error: AgentError, extensions: Extensions },
    /// The last event of a run.
    RunFinished { run_id: RunId, status: TerminalRunStatus, extensions: Extensions },
}

/// The mathematical value of an [`AgentEvent`].
pub enum EventView {
    RunStarted { run_id: Seq<char>, extensions: ExtensionsView },
    TurnStarted { run_id: Seq<char>, turn_id: Seq<char>, extensions: ExtensionsView },
    ModelOutput {
        run_id: Seq<char>,
        turn_id: Seq<char>,
        event: StreamEventView,
        extensions: ExtensionsView,
    },
    ToolCallRequested {
        run_id: Seq<char>,
        turn_id: Seq<char>,
        model_tool_call_id: Seq<char>,
        call: ToolCallView,
        extensions: ExtensionsView,
    },
    ApprovalRequested {
        run_id: Seq<char>,
        turn_id: Seq<char>,
        request: ApprovalView,
        extensions: ExtensionsView,
    },
    ApprovalResolved {
        run_id: Seq<char>,
        turn_id: Seq<char>,
        approval_id: Seq<char>,
        decision: DecisionView,
        extensions: ExtensionsView,
    },
    ToolResult {
        run_id: Seq<char>,
        turn_id: Seq<char>,
        result: ToolResultView,
        extensions: ExtensionsView,
    },
    Error {
        run_id: Seq<char>,
        turn_id: Option<Seq<char>>,
        error: AgentErrorView,
        extensions: ExtensionsView,
    },
    RunFinished { run_id: Seq<char>, status: TerminalView, extensions: ExtensionsView },
}

/// The value of an optional turn.
pub open spec fn optional_turn(turn: Option<TurnId>) -> Option<Seq<char>> {
    match turn {
        Some(id) => Some(id@),
        None => None,
    }
}

impl View for AgentEvent {
    type V = EventView;

    open spec fn view(&self) -> EventView {
        match *self {
            AgentEvent::RunStarted { run_id, extensions } => EventView::RunStarted {
                run_id: run_id@,
                extensions: model::metadata_views(extensions@),
            },
            AgentEvent::TurnStarted { run_id, turn_id, extensions } => EventView::TurnStarted {
                run_id: run_id@,
                turn_id: turn_id@,
                extensions: model::metadata_views(extensions@),
            },
            AgentEvent::ModelOutput { run_id, turn_id, event, extensions } => {
                EventView::ModelOutput {
                    run_id: run_id@,
                    turn_id: turn_id@,
                    event: event@,
                    extensions: model::metadata_views(extensions@),
                }
            },
            AgentEvent::ToolCallRequested {
                run_id,
                turn_id,
                model_tool_call_id,
                call,
                extensions,
            } => {
                EventView::ToolCallRequested {
                    run_id: run_id@,
                    turn_id: turn_id@,
                    model_tool_call_id: model_tool_call_id@,
                    call: call@,
                    extensions: model::metadata_views(extensions@),
                }
            },
            AgentEvent::ApprovalRequested { run_id, turn_id, request, extensions } => {
                EventView::ApprovalRequested {
                    run_id: run_id@,
                    turn_id: turn_id@,
                    request: request@,
                    extensions: model::metadata_views(extensions@),
                }
            },
            AgentEvent::ApprovalResolved { run_id, turn_id, approval_id, decision, extensions } => {
                EventView::ApprovalResolved {
                    run_id: run_id@,
                    turn_id: turn_id@,
                    approval_id: approval_id@,
                    decision: decision@,
                    extensions: model::metadata_views(extensions@),
                }
            },
            AgentEvent::ToolResult { run_id, turn_id, result, extensions } => {
                EventView::ToolResult {
                    run_id: run_id@,
                    turn_id: turn_id@,
                    result: result@,
                    extensions: model::metadata_views(extensions@),
                }
            },
            AgentEvent::Error { run_id, turn_id, error, extensions } => EventView::Error {
                run_id: run_id@,
                turn_id: optional_turn(turn_id),
                error: error@,
                extensions: model::metadata_views(extensions@),
            },
            AgentEvent::RunFinished { run_id, status, extensions } => EventView::RunFinished {
                run_id: run_id@,
                status: status@,
                extensions: model::metadata_views(extensions@),
            },
        }
    }
}

impl EventView {
    /// The run that the event belongs to.
    pub open spec fn run(self) -> Seq<char> {
        match self {
            EventView::RunStarted { run_id, .. } => run_id,
            EventView::TurnStarted { run_id, .. } => run_id,
            EventView::ModelOutput { run_id, .. } => run_id,
            EventView::ToolCallRequested { run_id, .. } => run_id,
            EventView::ApprovalRequested { run_id, .. } => run_id,
            EventView::ApprovalResolved { run_id, .. } => run_id,
            EventView::ToolResult { run_id, .. } => run_id,
            EventView::Error { run_id, .. } => run_id,
            EventView::RunFinished { run_id, .. } => run_id,
        }
    }

    /// What the event carries beside its own fields.
    pub open spec fn extensions(self) -> ExtensionsView {
        match self {
            EventView::RunStarted { extensions, .. } => extensions,
            EventView::TurnStarted { extensions, .. } => extensions,
            EventView::ModelOutput { extensions, .. } => extensions,
            EventView::ToolCallRequested { extensions, .. } => extensions,
            EventView::ApprovalRequested { extensions, .. } => extensions,
            EventView::ApprovalResolved { extensions, .. } => extensions,
            EventView::ToolResult { extensions, .. } => extensions,
            EventView::Error { extensions, .. } => extensions,
            EventView::RunFinished { extensions, .. } => extensions,
        }
    }
}

impl AgentEvent {
    /// The run that the event belongs to.
    pub fn run_id(&self) -> (id: &RunId)
        ensures
            id@ == self@.run(),
    {
        match self {
            AgentEvent::RunStarted { run_id, .. } => run_id,
            AgentEvent::TurnStarted { run_id, .. } => run_id,
            AgentEvent::ModelOutput { run_id, .. } => run_id,
            AgentEvent::ToolCallRequested { run_id, .. } => run_id,
            AgentEvent::ApprovalRequested { run_id, .. } => run_id,
            AgentEvent::ApprovalResolved { run_id, .. } => run_id,
            AgentEvent::ToolResult { run_id, .. } => run_id,
            AgentEvent::Error { run_id, .. } => run_id,
            AgentEvent::RunFinished { run_id, .. } => run_id,
        }
    }
}

} // verus!

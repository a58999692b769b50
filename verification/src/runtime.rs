//! The run of an agent: turns of the model, calls of tools, approvals, and the
//! events that record them. The decisions are here; the model, the tools, the
//! log and the person are reached outside, and come back as inputs.

use crate::model;
use crate::model::{
    ModelError, ModelErrorView, ModelMessage, ModelStreamEvent, ModelToolSpec, RequestView,
    StreamEventView,
};
use crate::run::{
    AgentEvent, ApprovalDecision, DecisionView, EventView, RunId, TerminalRunStatus, TerminalView,
};
use crate::stop::{FlowView, RunControlFlow};
use crate::text::{concat2, concat3, text_is_blank};
use crate::text;
use crate::tool::{OutputView, ToolOutput};
use crate::tool_support;
use crate::tool_support::truncate_json_string;
use vstd::prelude::*;

verus! {

/// The most turns that a run may take.
pub const MAX_TURNS: u64 = 128;

/// The longest serialized reason of a denial, in bytes.
pub const MAX_DENIAL_REASON_BYTES: usize = 8192;

/// How long the part of a reason may be that stands before the mark of a cut.
pub const CUT_DENIAL_REASON_BYTES: usize = 8177;

/// What the tools say about a call before it is made.
#[derive(Clone, Debug, PartialEq, Eq)]
pub enum CallPolicy {
    Allow,
    RequiresApproval { reason: String },
    Reject { reason: String },
}

/// The mathematical value of a [`CallPolicy`].
pub enum CallPolicyView {
    Allow,
    RequiresApproval { reason: Seq<char> },
    Reject { reason: Seq<char> },
}

impl View for CallPolicy {
    type V = CallPolicyView;

    open spec fn view(&self) -> CallPolicyView {
        match *self {
            CallPolicy::Allow => CallPolicyView::Allow,
            CallPolicy::RequiresApproval { reason } => CallPolicyView::RequiresApproval {
                reason: reason@,
            },
            CallPolicy::Reject { reason } => CallPolicyView::Reject { reason: reason@ },
        }
    }
}

/// What a run is asked to do.
#[derive(Clone, Debug, PartialEq, Eq)]
pub struct RunRequest {
    pub run_id: RunId,
    pub model: String,
    pub messages: Vec<ModelMessage>,
    pub tools: Vec<ModelToolSpec>,
    /// Named JSON texts.
    pub metadata: Vec<(String, String)>,
}

impl RunRequest {
    /// What the model is asked first.
    pub open spec fn request(self) -> RequestView {
        RequestView {
            model: self.model@,
            messages: model::message_views(self.messages@),
            tools: model::tool_spec_views(self.tools@),
            metadata: model::metadata_views(self.metadata@),
        }
    }
}

/// How a run ended.
#[derive(Clone, Debug, PartialEq, Eq)]
pub struct RunOutcome {
    status: TerminalRunStatus,
}

impl View for RunOutcome {
    type V = TerminalView;

    closed spec fn view(&self) -> TerminalView {
        self.status@
    }
}

impl RunOutcome {
    /// The end with that status.
    pub fn new(status: TerminalRunStatus) -> (outcome: RunOutcome)
        ensures
            outcome@ == status@,
    {
        RunOutcome { status }
    }

    /// The status that the run ended with.
    pub fn status(&self) -> (status: &TerminalRunStatus)
        ensures
            status@ == self@,
    {
        &self.status
    }
}

/// Why a run broke off, for a log that fails with `E`.
#[derive(Debug, PartialEq, Eq)]
pub enum AgentRuntimeError<E> {
    EventSink(E),
    /// The tool returned, but its result may not be recorded. The call must not
    /// be made again.
    ToolResultPersistenceIndeterminate { event: Box<AgentEvent>, source: E },
}

impl<E> AgentRuntimeError<E> {
    /// The error in words, given those for the unrecorded event and for the
    /// failure of the log.
    pub open spec fn text(self, event: Seq<char>, source: Seq<char>) -> Seq<char> {
        match self {
            AgentRuntimeError::EventSink(_) => "failed to append Agent Event: "@ + source,
            AgentRuntimeError::ToolResultPersistenceIndeterminate { .. } => {
                "tool execution completed but persistence of its result Agent Event is indeterminate; inspect and reconcile the Event Log without re-executing the tool: "@
                    + event + ": "@ + source
            },
        }
    }

    /// The error in words, given those for the unrecorded event, where there is
    /// one, and for the failure of the log.
    pub fn message(&self, event: &str, source: &str) -> (message: String)
        ensures
            message@ == self.text(event@, source@),
    {
        match self {
            AgentRuntimeError::EventSink(_) => concat2("failed to append Agent Event: ", source),
            AgentRuntimeError::ToolResultPersistenceIndeterminate { .. } => {
                let what = concat3(
                    "tool execution completed but persistence of its result Agent Event is indeterminate; inspect and reconcile the Event Log without re-executing the tool: ",
                    event,
                    ": ",
                );
                concat2(what.as_str(), source)
            },
        }
    }
}

/// The model, the tools and the log of a run.
pub struct AgentRuntime<M, T, S> {
    pub model_client: M,
    pub tool_executor: T,
    pub event_sink: S,
}

impl<M, T, S> AgentRuntime<M, T, S> {
    /// Puts the three together.
    pub fn new(model_client: M, tool_executor: T, event_sink: S) -> (runtime: AgentRuntime<M, T, S>)
        ensures
            runtime.model_client == model_client,
            runtime.tool_executor == tool_executor,
            runtime.event_sink == event_sink,
    {
        AgentRuntime { model_client, tool_executor, event_sink }
    }

    /// The model.
    pub fn model_client(&self) -> (client: &M)
        ensures
            *client == self.model_client,
    {
        &self.model_client
    }

    /// The tools.
    pub fn tool_executor(&self) -> (executor: &T)
        ensures
            *executor == self.tool_executor,
    {
        &self.tool_executor
    }
}

/// The reason that a denial is recorded with: never blank, and never longer
/// than the log has room for.
pub open spec fn denial_reason(reason: Seq<char>) -> Seq<char> {
    if text::is_blank(reason) {
        "approval denied without a reason"@
    } else if tool_support::is_cut(reason, MAX_DENIAL_REASON_BYTES as nat) {
        tool_support::json_prefix(reason, CUT_DENIAL_REASON_BYTES as nat) + "… [truncated]"@
    } else {
        reason
    }
}

/// Executable form of [`denial_reason`].
pub fn normalize_denial_reason(reason: String) -> (normalized: String)
    ensures
        normalized@ == denial_reason(reason@),
{
    if text_is_blank(reason.as_str()) {
        return "approval denied without a reason".to_owned();
    }
    let (whole, cut) = truncate_json_string(reason.as_str(), MAX_DENIAL_REASON_BYTES);
    if !cut {
        return reason;
    }
    let (beginning, _) = truncate_json_string(reason.as_str(), CUT_DENIAL_REASON_BYTES);
    concat2(beginning.as_str(), "… [truncated]")
}

/// A recorded denial has a reason that is not blank and that fits its room in
/// the log.
pub proof fn law_denial_reasons_fit(reason: Seq<char>)
    ensures
        !text::is_blank(denial_reason(reason)),
        tool_support::json_string_len(denial_reason(reason)) <= MAX_DENIAL_REASON_BYTES,
{
    let limit = MAX_DENIAL_REASON_BYTES as nat;
    tool_support::law_cut_texts_fit_their_limit(reason, limit);
    if text::is_blank(reason) {
        lemma_fixed_reason_fits();
    } else if tool_support::is_cut(reason, limit) {
        let beginning = tool_support::json_prefix(reason, CUT_DENIAL_REASON_BYTES as nat);
        let mark = "… [truncated]"@;
        tool_support::law_cut_texts_fit_their_limit(reason, CUT_DENIAL_REASON_BYTES as nat);
        lemma_mark_of_a_cut_fits();
        tool_support::lemma_json_chars_len_of_both(beginning, mark, mark.len() as int);
        let whole = denial_reason(reason);
        assert(whole[beginning.len() as int] == mark[0]);
        assert(!text::is_whitespace(whole[beginning.len() as int]));
    }
}

proof fn lemma_fixed_reason_fits()
    ensures
        !text::is_blank("approval denied without a reason"@),
        tool_support::json_string_len("approval denied without a reason"@) <= 34,
{
    reveal_strlit("approval denied without a reason");
    let fixed = "approval denied without a reason"@;
    assert(!text::is_whitespace(fixed[0]));
    tool_support::lemma_plain_chars_len(fixed, 0, fixed.len() as int);
}

proof fn lemma_mark_of_a_cut_fits()
    ensures
        "… [truncated]"@.len() > 0,
        !text::is_whitespace("… [truncated]"@[0]),
        tool_support::json_chars_len("… [truncated]"@, "… [truncated]"@.len() as int) == 15,
{
    reveal_strlit("… [truncated]");
    let mark = "… [truncated]"@;
    assert(mark[0] == '…');
    assert(tool_support::json_char_len('…') == 3);
    assert(tool_support::json_chars_len(mark, 1) == 3) by {
        reveal_with_fuel(tool_support::json_chars_len, 2);
    }
    tool_support::lemma_plain_chars_len(mark, 1, mark.len() as int);
}

/// Where a checkpoint stands.
#[derive(Clone, Copy, Debug, PartialEq, Eq, Structural)]
pub enum CheckpointAt {
    /// Before a turn.
    Turn,
    /// Before an event of the model is recorded.
    ModelEvent,
    /// Before a tool is called.
    Execution,
}

/// What a run waits for.
#[derive(Clone, Copy, Debug, PartialEq, Eq, Structural)]
pub enum RunPhase {
    /// The pending event to be appended to the log.
    Emit,
    /// The control to be asked.
    Checkpoint(CheckpointAt),
    /// The model to take up the request.
    OpenStream,
    /// The next event of the model.
    NextModelEvent,
    /// What the tools say about the current call.
    ClassifyCall,
    /// A decision about the approval that was asked for.
    DecideApproval,
    /// The output of the current call.
    Execute,
    /// Nothing: the run is over.
    Done,
}

/// What a run is handed.
#[derive(Debug, PartialEq, Eq)]
pub enum RunInput {
    /// Whether the pending event was appended.
    Appended(bool),
    Control(RunControlFlow),
    Opened(Result<(), ModelError>),
    /// An event of the model, or the end of its stream.
    Model(Option<ModelStreamEvent>),
    Policy(CallPolicy),
    Decided(ApprovalDecision),
    Executed(ToolOutput),
}

/// The mathematical value of a [`RunInput`].
pub enum InputView {
    Appended(bool),
    Control(FlowView),
    Opened(Result<(), ModelErrorView>),
    Model(Option<StreamEventView>),
    Policy(CallPolicyView),
    Decided(DecisionView),
    Executed(OutputView),
}

impl View for RunInput {
    type V = InputView;

    open spec fn view(&self) -> InputView {
        match *self {
            RunInput::Appended(done) => InputView::Appended(done),
            RunInput::Control(flow) => InputView::Control(flow@),
            RunInput::Opened(Ok(())) => InputView::Opened(Ok(())),
            RunInput::Opened(Err(error)) => InputView::Opened(Err(error@)),
            RunInput::Model(Some(event)) => InputView::Model(Some(event@)),
            RunInput::Model(None) => InputView::Model(None),
            RunInput::Policy(policy) => InputView::Policy(policy@),
            RunInput::Decided(decision) => InputView::Decided(decision@),
            RunInput::Executed(output) => InputView::Executed(output@),
        }
    }
}

/// How a run came to its end.
#[derive(Debug, PartialEq, Eq)]
pub enum RunEnd {
    Finished(RunOutcome),
    /// An event could not be appended.
    EventSinkFailed,
    /// A tool returned, but its result may not be recorded.
    ToolResultIndeterminate { event: AgentEvent },
}

/// The mathematical value of a [`RunEnd`].
pub enum EndView {
    Finished(TerminalView),
    EventSinkFailed,
    ToolResultIndeterminate(EventView),
}

impl View for RunEnd {
    type V = EndView;

    open spec fn view(&self) -> EndView {
        match *self {
            RunEnd::Finished(outcome) => EndView::Finished(outcome@),
            RunEnd::EventSinkFailed => EndView::EventSinkFailed,
            RunEnd::ToolResultIndeterminate { event } => EndView::ToolResultIndeterminate(event@),
        }
    }
}

impl RunEnd {
    /// The end for a caller, with the failure of the log where it failed.
    pub fn into_result<E>(self, source: Option<E>) -> (result: Result<
        RunOutcome,
        AgentRuntimeError<E>,
    >)
        requires
            !(self@ is Finished) ==> source is Some,
        ensures
            match self@ {
                EndView::Finished(status) => result matches Ok(outcome) && outcome@ == status,
                EndView::EventSinkFailed => result matches Err(AgentRuntimeError::EventSink(cause))
                    && source == Some(cause),
                EndView::ToolResultIndeterminate(event) => result matches Err(
                    AgentRuntimeError::ToolResultPersistenceIndeterminate {
                        event: unrecorded,
                        source: cause,
                    },
                ) && unrecorded@ == event && source == Some(cause),
            },
    {
        match (self, source) {
            (RunEnd::Finished(outcome), _) => Ok(outcome),
            (RunEnd::EventSinkFailed, Some(cause)) => Err(AgentRuntimeError::EventSink(cause)),
            (RunEnd::ToolResultIndeterminate { event }, Some(cause)) => Err(
                AgentRuntimeError::ToolResultPersistenceIndeterminate {
                    event: Box::new(event),
                    source: cause,
                },
            ),
            (_, None) => {
                vstd::pervasive::unreached()
            },
        }
    }
}

} // verus!

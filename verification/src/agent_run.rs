//! A run in progress.

use crate::model;
use crate::model::{
    copy_calls, no_extensions, tool_result_content, ExtensionsView, ModelCallView, ModelError,
    ModelMessage, ModelRequest, ModelStreamEvent, ModelToolCall, StreamEventView,
};
use crate::run;
use crate::run::{
    numbered_text, AgentError, AgentEvent, ApprovalDecision, ApprovalRequest, EventSequence,
    EventView, RunId, TerminalRunStatus, ToolCall, ToolResult, TurnId,
};
use crate::runtime::{
    normalize_denial_reason, CallPolicy, CheckpointAt, InputView, RunEnd, RunInput, RunOutcome,
    RunPhase, RunRequest, MAX_TURNS,
};
use crate::runtime_model;
use crate::runtime_model::RunView;
use crate::stop::{RunControlFlow, RunStopToken};
use crate::text::{concat2, concat3, same_text};
use crate::tool::{no_fields, ToolError, ToolOutput};
use vstd::prelude::*;

verus! {

/// A run in progress.
pub struct AgentRun {
    run_id: RunId,
    request: ModelRequest,
    phase: RunPhase,
    pending: Option<AgentEvent>,
    sequence: u64,
    turn: u64,
    text: String,
    calls: Vec<ModelToolCall>,
    answered: usize,
    tool_sequence: u64,
    approval_sequence: u64,
    call: Option<ToolCall>,
    approval: Option<ApprovalRequest>,
    allowed: bool,
    held: Option<ModelStreamEvent>,
    committed: Ghost<Seq<EventView>>,
    end: Option<RunEnd>,
}

impl View for AgentRun {
    type V = RunView;

    closed spec fn view(&self) -> RunView {
        RunView {
            run_id: self.run_id@,
            model: self.request.model@,
            messages: model::message_views(self.request.messages@),
            tools: model::tool_spec_views(self.request.tools@),
            metadata: model::metadata_views(self.request.metadata@),
            phase: self.phase,
            pending: match self.pending {
                Some(event) => Some(event@),
                None => None,
            },
            sequence: self.sequence,
            turn: self.turn,
            text: self.text@,
            calls: model::call_views(self.calls@),
            answered: self.answered as nat,
            tool_sequence: self.tool_sequence,
            approval_sequence: self.approval_sequence,
            call: match self.call {
                Some(call) => Some(call@),
                None => None,
            },
            approval: match self.approval {
                Some(request) => Some(request@),
                None => None,
            },
            allowed: self.allowed,
            held: match self.held {
                Some(event) => Some(event@),
                None => None,
            },
            committed: self.committed@,
            end: match self.end {
                Some(end) => Some(end@),
                None => None,
            },
        }
    }
}

fn bump(number: u64) -> (next: u64)
    ensures
        next == runtime_model::bumped(number),
{
    if number == u64::MAX {
        number
    } else {
        number + 1
    }
}

fn failed_call(code: &str, message: String) -> (output: ToolOutput)
    ensures
        output@ == runtime_model::call_failure(code@, message@),
{
    ToolOutput::Failure {
        error: ToolError { code: code.to_owned(), message, retryable: false },
        extensions: no_fields(),
    }
}

fn is_known_call(calls: &Vec<ModelToolCall>, id: &str) -> (known: bool)
    ensures
        known == runtime_model::has_call(model::call_views(calls@), id@),
{
    let ghost views = model::call_views(calls@);
    assert(views.len() == calls@.len());
    let length: usize = calls.len();
    let mut index: usize = 0;
    while index < length
        invariant
            index <= length,
            length == calls@.len(),
            views == model::call_views(calls@),
            views.len() == calls@.len(),
            forall|at: int| 0 <= at < index ==> (#[trigger] views[at]).id != id@,
        decreases length - index,
    {
        assert(views[index as int] == calls@[index as int]@);
        if same_text(calls[index].id.as_str(), id) {
            return true;
        }
        index = index + 1;
    }
    false
}

impl AgentRun {
    /// The request's run before its first event.
    pub fn new(request: RunRequest) -> (run: AgentRun)
        ensures
            run@ == RunView::initial(request.run_id@, request.request()),
            run@.well_formed(),
    {
        let run_id = request.run_id;
        let pending = AgentEvent::RunStarted { run_id: run_id.copy(), extensions: no_extensions() };
        let run = AgentRun {
            run_id,
            request: ModelRequest {
                model: request.model,
                messages: request.messages,
                tools: request.tools,
                metadata: request.metadata,
            },
            phase: RunPhase::Emit,
            pending: Some(pending),
            sequence: 1,
            turn: 0,
            text: String::new(),
            calls: Vec::new(),
            answered: 0,
            tool_sequence: 0,
            approval_sequence: 0,
            call: None,
            approval: None,
            allowed: false,
            held: None,
            committed: Ghost(Seq::empty()),
            end: None,
        };
        assert(run@.calls =~= Seq::<ModelCallView>::empty());
        assert(run@.text =~= Seq::<char>::empty());
        run
    }

    /// What the run waits for.
    pub fn phase(&self) -> (phase: RunPhase)
        ensures
            phase == self@.phase,
    {
        self.phase
    }

    /// The event to be appended, where there is one.
    pub fn pending_event(&self) -> (event: Option<&AgentEvent>)
        ensures
            match event {
                Some(found) => self@.pending == Some(found@),
                None => self@.pending is None,
            },
    {
        self.pending.as_ref()
    }

    /// The place of the next event.
    pub fn sequence(&self) -> (sequence: EventSequence)
        ensures
            sequence.number == self@.sequence,
    {
        EventSequence { number: self.sequence }
    }

    /// Whether the event to be appended must be stable before the run goes on.
    pub fn pending_is_durable(&self) -> (durable: bool)
        ensures
            durable == match self@.pending {
                Some(event) => runtime_model::is_durable(event),
                None => false,
            },
    {
        match &self.pending {
            Some(AgentEvent::ToolCallRequested { .. }) => true,
            Some(AgentEvent::ToolResult { .. }) => true,
            _ => false,
        }
    }

    /// What the model is asked.
    pub fn model_request(&self) -> (request: &ModelRequest)
        ensures
            request@ == self@.request(),
    {
        &self.request
    }

    /// The current call, where there is one.
    pub fn current_call(&self) -> (call: Option<&ToolCall>)
        ensures
            match call {
                Some(found) => self@.call == Some(found@),
                None => self@.call is None,
            },
    {
        self.call.as_ref()
    }

    /// The approval that was asked for last, where one was.
    pub fn approval_request(&self) -> (request: Option<&ApprovalRequest>)
        ensures
            match request {
                Some(found) => self@.approval == Some(found@),
                None => self@.approval is None,
            },
    {
        self.approval.as_ref()
    }

    /// How the run ended, where it is over.
    pub fn into_end(self) -> (end: Option<RunEnd>)
        ensures
            match end {
                Some(found) => self@.end == Some(found@),
                None => self@.end is None,
            },
    {
        self.end
    }

    fn turn_id(&self) -> (id: TurnId)
        ensures
            id@ == self@.turn_id(),
    {
        TurnId::new(numbered_text("turn-", self.turn))
    }

    fn emit(&mut self, event: AgentEvent)
        ensures
            final(self)@ == old(self)@.emit(event@),
    {
        self.phase = RunPhase::Emit;
        self.pending = Some(event);
    }

    fn finish(&mut self, proposed: TerminalRunStatus, token: &mut RunStopToken)
        ensures
            (final(self)@, final(token)@) == old(self)@.finish(proposed@, old(token)@),
    {
        let status = token.resolve_terminal(proposed);
        let run_id = self.run_id.copy();
        self.emit(AgentEvent::RunFinished { run_id, status, extensions: no_extensions() });
    }

    fn fail(&mut self, turn_id: Option<TurnId>, code: String, message: String)
        ensures
            final(self)@ == old(self)@.fail(run::optional_turn(turn_id), code@, message@),
    {
        let run_id = self.run_id.copy();
        self.emit(
            AgentEvent::Error {
                run_id,
                turn_id,
                error: AgentError { code, message, recoverable: false },
                extensions: no_extensions(),
            },
        );
    }

    fn begin_turn(&mut self)
        ensures
            final(self)@ == old(self)@.begin_turn(),
    {
        if self.turn >= MAX_TURNS {
            self.fail(
                None,
                "turn_limit_reached".to_owned(),
                "Agent Run exceeded the 128-turn safety limit".to_owned(),
            );
        } else {
            self.turn = self.turn + 1;
            self.phase = RunPhase::Checkpoint(CheckpointAt::Turn);
        }
    }

    fn next_call(&mut self)
        ensures
            final(self)@ == old(self)@.next_call(),
    {
        assert(self@.calls.len() == self.calls@.len());
        if self.answered >= self.calls.len() {
            self.begin_turn();
            return;
        }
        assert(self@.calls[self.answered as int] == self.calls@[self.answered as int]@);
        self.tool_sequence = bump(self.tool_sequence);
        let asked = self.calls[self.answered].copy();
        let prefix = concat2(self.run_id.as_str(), "-tool-");
        let call = ToolCall {
            id: numbered_text(prefix.as_str(), self.tool_sequence),
            tool_name: asked.name,
            arguments: asked.arguments,
        };
        self.call = Some(call.copy());
        let run_id = self.run_id.copy();
        let turn_id = self.turn_id();
        self.emit(
            AgentEvent::ToolCallRequested {
                run_id,
                turn_id,
                model_tool_call_id: asked.id,
                call,
                extensions: no_extensions(),
            },
        );
    }

    fn collected(&mut self, token: &mut RunStopToken)
        ensures
            (final(self)@, final(token)@) == old(self)@.collected(old(token)@),
    {
        assert(self@.calls.len() == self.calls@.len());
        let said = self.text.as_str().to_owned();
        if self.calls.len() == 0 {
            self.finish(TerminalRunStatus::Completed { final_message: said }, token);
            return;
        }
        let silent = self.text.as_str().is_empty();
        let calls = copy_calls(&self.calls);
        let message = ModelMessage::Assistant {
            text: if silent {
                None
            } else {
                Some(said)
            },
            tool_calls: calls,
        };
        self.push_message(message);
        self.answered = 0;
        self.next_call();
    }

    fn push_message(&mut self, message: ModelMessage)
        ensures
            final(self)@ == (RunView { messages: old(self)@.messages.push(message@), ..old(self)@ }),
    {
        self.request.messages.push(message);
        assert(self@.messages =~= old(self)@.messages.push(message@));
    }

    fn stream_ended(&mut self, completed: bool, token: &mut RunStopToken)
        ensures
            (final(self)@, final(token)@) == old(self)@.stream_ended(completed, old(token)@),
    {
        if let Some(status) = token.status() {
            self.finish(status, token);
            return;
        }
        if completed {
            self.collected(token);
        } else {
            let turn_id = self.turn_id();
            self.fail(
                Some(turn_id),
                "model_stream_incomplete".to_owned(),
                "model stream ended without a completed event".to_owned(),
            );
        }
    }

    fn heard_call(&mut self, call: ModelToolCall)
        ensures
            forall|extensions: ExtensionsView|
                final(self)@ == (#[trigger] old(self)@.heard(
                    StreamEventView::ToolCall { call: call@, extensions },
                    None,
                )).0,
    {
        if is_known_call(&self.calls, call.id.as_str()) {
            let turn_id = self.turn_id();
            let message = concat3(
                "model emitted duplicate tool call id '",
                call.id.as_str(),
                "' in one turn",
            );
            self.fail(Some(turn_id), "duplicate_model_tool_call_id".to_owned(), message);
        } else {
            self.calls.push(call);
            assert(self@.calls =~= old(self)@.calls.push(call@));
            self.phase = RunPhase::NextModelEvent;
        }
    }

    fn heard(&mut self, event: ModelStreamEvent, token: &mut RunStopToken)
        ensures
            (final(self)@, final(token)@) == old(self)@.heard(event@, old(token)@),
    {
        let ghost view = event@;
        match event {
            ModelStreamEvent::TextDelta { delta, .. } => {
                self.text.push_str(delta.as_str());
                self.phase = RunPhase::NextModelEvent;
            },
            ModelStreamEvent::ToolCall { call, .. } => {
                self.heard_call(call);
                assert(self@ == old(self)@.heard(view, None).0);
            },
            ModelStreamEvent::Completed { .. } => {
                self.stream_ended(true, token);
            },
            ModelStreamEvent::Failed { error, .. } => {
                let turn_id = self.turn_id();
                self.fail(Some(turn_id), error.code, error.message);
            },
            _ => {
                self.phase = RunPhase::NextModelEvent;
            },
        }
    }

    fn result(&mut self, output: ToolOutput)
        requires
            old(self)@.call is Some,
        ensures
            final(self)@ == old(self)@.result(output@),
    {
        let call_id = match &self.call {
            Some(call) => call.id.as_str().to_owned(),
            None => vstd::pervasive::unreached(),
        };
        let run_id = self.run_id.copy();
        let turn_id = self.turn_id();
        self.emit(
            AgentEvent::ToolResult {
                run_id,
                turn_id,
                result: ToolResult { call_id, output },
                extensions: no_extensions(),
            },
        );
    }

    fn answer(&mut self, output: ToolOutput)
        requires
            old(self)@.answered < old(self)@.calls.len(),
        ensures
            final(self)@ == old(self)@.answer(output@),
    {
        assert(self@.calls.len() == self.calls@.len());
        assert(self@.calls[self.answered as int] == self.calls@[self.answered as int]@);
        let length: usize = self.calls.len();
        assert(self.answered < length);
        let asked = self.calls[self.answered].copy();
        let next: usize = self.answered + 1;
        let message = ModelMessage::Tool {
            content: tool_result_content(output),
            name: asked.name,
            tool_call_id: asked.id,
        };
        self.push_message(message);
        self.answered = next;
    }

    fn after_result(&mut self, output: ToolOutput, token: &mut RunStopToken)
        requires
            old(self)@.has_current_call(),
        ensures
            (final(self)@, final(token)@) == old(self)@.after_result(output@, old(token)@),
    {
        if let Some(status) = token.status() {
            self.finish(status, token);
            return;
        }
        let error = match &output {
            ToolOutput::Failure { error, .. } => Some(
                AgentError {
                    code: error.code.as_str().to_owned(),
                    message: error.message.as_str().to_owned(),
                    recoverable: true,
                },
            ),
            ToolOutput::Success { .. } => None,
        };
        self.answer(output);
        match error {
            Some(error) => {
                let run_id = self.run_id.copy();
                let turn_id = self.turn_id();
                self.emit(
                    AgentEvent::Error {
                        run_id,
                        turn_id: Some(turn_id),
                        error,
                        extensions: no_extensions(),
                    },
                );
            },
            None => {
                self.next_call();
            },
        }
    }

    fn after_decision(&mut self, decision: ApprovalDecision)
        requires
            old(self)@.call is Some,
        ensures
            final(self)@ == old(self)@.after_decision(decision@),
    {
        match decision {
            ApprovalDecision::Approve => {
                self.phase = RunPhase::Checkpoint(CheckpointAt::Execution);
            },
            ApprovalDecision::Deny { reason } => {
                self.result(failed_call("approval_denied", reason));
            },
        }
    }

    fn begin_stream(&mut self)
        ensures
            final(self)@ == (RunView {
                text: Seq::empty(),
                calls: Seq::empty(),
                answered: 0,
                phase: RunPhase::OpenStream,
                ..old(self)@
            }),
    {
        self.text = String::new();
        self.calls = Vec::new();
        self.answered = 0;
        self.phase = RunPhase::OpenStream;
        assert(self@.calls =~= Seq::<ModelCallView>::empty());
        assert(self@.text =~= Seq::<char>::empty());
    }

    fn after_commit(&mut self, event: AgentEvent, token: &mut RunStopToken)
        requires
            event@ is ApprovalResolved ==> old(self)@.call is Some,
            event@ is ToolResult ==> old(self)@.has_current_call(),
        ensures
            (final(self)@, final(token)@) == old(self)@.after_commit(event@, old(token)@),
    {
        match event {
            AgentEvent::RunStarted { .. } => {
                self.begin_turn();
            },
            AgentEvent::TurnStarted { .. } => {
                self.begin_stream();
            },
            AgentEvent::ModelOutput { event: heard, .. } => {
                self.heard(heard, token);
            },
            AgentEvent::ToolCallRequested { .. } => {
                self.phase = RunPhase::ClassifyCall;
            },
            AgentEvent::ApprovalRequested { request, .. } => {
                self.approval = Some(request);
                self.phase = RunPhase::DecideApproval;
            },
            AgentEvent::ApprovalResolved { decision, .. } => {
                self.after_decision(decision);
            },
            AgentEvent::ToolResult { result, .. } => {
                self.after_result(result.output, token);
            },
            AgentEvent::Error { error, .. } => {
                if error.recoverable {
                    self.next_call();
                } else {
                    self.finish(TerminalRunStatus::Failed { error }, token);
                }
            },
            AgentEvent::RunFinished { status, .. } => {
                self.end = Some(RunEnd::Finished(RunOutcome::new(status)));
                self.phase = RunPhase::Done;
            },
        }
    }

    fn appended(&mut self, done: bool, token: &mut RunStopToken)
        requires
            old(self)@.phase == RunPhase::Emit,
            old(self)@.well_formed(),
        ensures
            (final(self)@, final(token)@) == old(self)@.appended(done, old(token)@),
    {
        let event = match self.pending.take() {
            Some(event) => event,
            None => vstd::pervasive::unreached(),
        };
        if done {
            self.sequence = bump(self.sequence);
            proof {
                self.committed@ = self.committed@.push(event@);
            }
            self.after_commit(event, token);
        } else {
            let lost = matches!(event, AgentEvent::ToolResult { .. });
            self.end = if lost {
                Some(RunEnd::ToolResultIndeterminate { event })
            } else {
                Some(RunEnd::EventSinkFailed)
            };
            self.phase = RunPhase::Done;
        }
    }

    fn passed(&mut self, at: CheckpointAt)
        requires
            at == CheckpointAt::ModelEvent ==> old(self)@.held is Some,
        ensures
            final(self)@ == old(self)@.passed(at),
    {
        match at {
            CheckpointAt::Turn => {
                let run_id = self.run_id.copy();
                let turn_id = self.turn_id();
                self.emit(AgentEvent::TurnStarted { run_id, turn_id, extensions: no_extensions() });
            },
            CheckpointAt::ModelEvent => {
                let event = match self.held.take() {
                    Some(event) => event,
                    None => vstd::pervasive::unreached(),
                };
                let run_id = self.run_id.copy();
                let turn_id = self.turn_id();
                self.emit(
                    AgentEvent::ModelOutput { run_id, turn_id, event, extensions: no_extensions() },
                );
            },
            CheckpointAt::Execution => {
                self.phase = RunPhase::Execute;
            },
        }
    }

    fn classified(&mut self, policy: CallPolicy)
        requires
            old(self)@.call is Some,
        ensures
            final(self)@ == old(self)@.classified(policy@),
    {
        match policy {
            CallPolicy::Allow => {
                self.allowed = true;
                self.phase = RunPhase::Checkpoint(CheckpointAt::Execution);
            },
            CallPolicy::RequiresApproval { reason } => {
                self.allowed = false;
                self.approval_sequence = bump(self.approval_sequence);
                let prefix = concat2(self.run_id.as_str(), "-approval-");
                let call = match &self.call {
                    Some(call) => call.copy(),
                    None => vstd::pervasive::unreached(),
                };
                let request = ApprovalRequest {
                    id: numbered_text(prefix.as_str(), self.approval_sequence),
                    call,
                    reason,
                };
                let run_id = self.run_id.copy();
                let turn_id = self.turn_id();
                self.emit(
                    AgentEvent::ApprovalRequested {
                        run_id,
                        turn_id,
                        request,
                        extensions: no_extensions(),
                    },
                );
            },
            CallPolicy::Reject { reason } => {
                self.allowed = false;
                self.result(failed_call("tool_rejected", reason));
            },
        }
    }

    fn decided(&mut self, decision: ApprovalDecision)
        requires
            old(self)@.approval is Some,
        ensures
            final(self)@ == old(self)@.decided(decision@),
    {
        let decision = match decision {
            ApprovalDecision::Approve => ApprovalDecision::Approve,
            ApprovalDecision::Deny { reason } => ApprovalDecision::Deny {
                reason: normalize_denial_reason(reason),
            },
        };
        let approval_id = match &self.approval {
            Some(request) => request.id.as_str().to_owned(),
            None => vstd::pervasive::unreached(),
        };
        let run_id = self.run_id.copy();
        let turn_id = self.turn_id();
        self.emit(
            AgentEvent::ApprovalResolved {
                run_id,
                turn_id,
                approval_id,
                decision,
                extensions: no_extensions(),
            },
        );
    }

    fn at_checkpoint(&mut self, at: CheckpointAt, flow: RunControlFlow, token: &mut RunStopToken)
        requires
            old(self)@.phase == RunPhase::Checkpoint(at),
            at == CheckpointAt::ModelEvent ==> old(self)@.held is Some,
        ensures
            (final(self)@, final(token)@) == old(self)@.step(
                InputView::Control(flow@),
                old(token)@,
            ),
    {
        match token.stopped_status(flow) {
            Some(status) => {
                self.finish(status, token);
            },
            None => {
                self.passed(at);
            },
        }
    }

    fn opened(&mut self, opened: Result<(), ModelError>, token: &mut RunStopToken)
        requires
            old(self)@.phase == RunPhase::OpenStream,
        ensures
            (final(self)@, final(token)@) == old(self)@.step(
                RunInput::Opened(opened)@,
                old(token)@,
            ),
    {
        match opened {
            Ok(()) => {
                self.phase = RunPhase::NextModelEvent;
            },
            Err(error) => match token.status() {
                Some(status) => {
                    self.finish(status, token);
                },
                None => {
                    let turn_id = self.turn_id();
                    self.fail(Some(turn_id), error.code, error.message);
                },
            },
        }
    }

    /// Takes an input. `token` holds the status that is chosen for the run, and
    /// may be asked to stop at any time between two inputs.
    pub fn advance(&mut self, input: RunInput, token: &mut RunStopToken)
        requires
            old(self)@.well_formed(),
        ensures
            (final(self)@, final(token)@) == old(self)@.step(input@, old(token)@),
            final(self)@.well_formed(),
    {
        proof {
            runtime_model::law_runs_stay_in_order(self@, input@, token@);
        }
        match (self.phase, input) {
            (RunPhase::Emit, RunInput::Appended(done)) => {
                self.appended(done, token);
            },
            (RunPhase::Checkpoint(at), RunInput::Control(flow)) => {
                self.at_checkpoint(at, flow, token);
            },
            (RunPhase::OpenStream, RunInput::Opened(opened)) => {
                self.opened(opened, token);
            },
            (RunPhase::NextModelEvent, RunInput::Model(Some(event))) => {
                self.held = Some(event);
                self.phase = RunPhase::Checkpoint(CheckpointAt::ModelEvent);
            },
            (RunPhase::NextModelEvent, RunInput::Model(None)) => {
                self.stream_ended(false, token);
            },
            (RunPhase::ClassifyCall, RunInput::Policy(policy)) => {
                self.classified(policy);
            },
            (RunPhase::DecideApproval, RunInput::Decided(decision)) => {
                match token.status() {
                    Some(status) => {
                        self.finish(status, token);
                    },
                    None => {
                        self.decided(decision);
                    },
                }
            },
            (RunPhase::Execute, RunInput::Executed(output)) => {
                self.result(output);
            },
            _ => {},
        }
    }
}

} // verus!

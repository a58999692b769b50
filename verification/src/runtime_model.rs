//! The rules of a run: how each input moves it on, and what holds of the events
//! that it has recorded.

use crate::model;
use crate::model::{
    ExtensionsView, MessageView, ModelCallView, RequestView, StreamEventView, ToolSpecView,
};
use crate::run;
use crate::run::{
    AgentErrorView, ApprovalView, DecisionView, EventView, TerminalView, ToolCallView,
    ToolResultView,
};
use crate::runtime;
use crate::runtime::{CallPolicyView, CheckpointAt, EndView, InputView, RunPhase, MAX_TURNS};
use crate::stop;
use crate::tool::{OutputView, ToolErrorView};
use vstd::prelude::*;

verus! {

/// A number with one more, as far as numbers reach.
pub open spec fn bumped(number: u64) -> u64 {
    if number == u64::MAX {
        number
    } else {
        (number + 1) as u64
    }
}

/// A failure that a tool did not report itself.
pub open spec fn call_failure(code: Seq<char>, message: Seq<char>) -> OutputView {
    OutputView::Failure {
        error: ToolErrorView { code, message, retryable: false },
        extensions: Seq::empty(),
    }
}

/// Whether one of the calls has that name.
pub open spec fn has_call(calls: Seq<ModelCallView>, id: Seq<char>) -> bool {
    exists|at: int| 0 <= at < calls.len() && (#[trigger] calls[at]).id == id
}

/// Whether an event must be stable before the run goes on.
pub open spec fn is_durable(event: EventView) -> bool {
    event is ToolCallRequested || event is ToolResult
}

/// A run and the status that is chosen for it.
pub type Progress = (RunView, Option<TerminalView>);

/// The mathematical value of an [`AgentRun`](crate::agent_run::AgentRun).
pub struct RunView {
    pub run_id: Seq<char>,
    /// The model that is asked.
    pub model: Seq<char>,
    /// The conversation with the model.
    pub messages: Seq<MessageView>,
    /// The tools that the model is told of.
    pub tools: Seq<ToolSpecView>,
    /// What else goes with each request.
    pub metadata: Seq<(Seq<char>, Seq<char>)>,
    pub phase: RunPhase,
    /// The event to be appended.
    pub pending: Option<EventView>,
    /// The place of the next event.
    pub sequence: u64,
    pub turn: u64,
    /// What the model said in this turn.
    pub text: Seq<char>,
    /// The calls of this turn.
    pub calls: Seq<ModelCallView>,
    /// How many of them are answered.
    pub answered: nat,
    pub tool_sequence: u64,
    pub approval_sequence: u64,
    /// The current call.
    pub call: Option<ToolCallView>,
    /// The approval that was asked for.
    pub approval: Option<ApprovalView>,
    /// Whether the current call needs no approval.
    pub allowed: bool,
    /// The event of the model that waits for its checkpoint.
    pub held: Option<StreamEventView>,
    /// The events that were appended.
    pub committed: Seq<EventView>,
    pub end: Option<EndView>,
}

impl RunView {
    /// A run before its first event.
    pub open spec fn initial(run_id: Seq<char>, request: RequestView) -> RunView {
        RunView {
            run_id,
            model: request.model,
            messages: request.messages,
            tools: request.tools,
            metadata: request.metadata,
            phase: RunPhase::Emit,
            pending: Some(EventView::RunStarted { run_id, extensions: ExtensionsView::empty() }),
            sequence: 1,
            turn: 0,
            text: Seq::empty(),
            calls: Seq::empty(),
            answered: 0,
            tool_sequence: 0,
            approval_sequence: 0,
            call: None,
            approval: None,
            allowed: false,
            held: None,
            committed: Seq::empty(),
            end: None,
        }
    }

    /// What the model is asked now.
    pub open spec fn request(self) -> RequestView {
        RequestView {
            model: self.model,
            messages: self.messages,
            tools: self.tools,
            metadata: self.metadata,
        }
    }

    /// The name of the current turn.
    pub open spec fn turn_id(self) -> Seq<char> {
        run::numbered("turn-"@, self.turn as nat)
    }

    pub open spec fn in_phase(self, phase: RunPhase) -> RunView {
        RunView { phase, ..self }
    }

    pub open spec fn emit(self, event: EventView) -> RunView {
        RunView { phase: RunPhase::Emit, pending: Some(event), ..self }
    }

    /// The run is to end: with the status that is chosen for it, or else with
    /// the one that is proposed.
    pub open spec fn finish(self, proposed: TerminalView, chosen: Option<TerminalView>) -> Progress {
        let status = stop::resolved(chosen, proposed);
        (self.emit(EventView::RunFinished {
            run_id: self.run_id,
            status,
            extensions: ExtensionsView::empty(),
        }), Some(status))
    }

    /// An error that the run cannot go on behind is recorded.
    pub open spec fn fail(
        self,
        turn_id: Option<Seq<char>>,
        code: Seq<char>,
        message: Seq<char>,
    ) -> RunView {
        self.emit(
            EventView::Error {
                run_id: self.run_id,
                turn_id,
                error: AgentErrorView { code, message, recoverable: false },
                extensions: ExtensionsView::empty(),
            },
        )
    }

    /// The next turn, unless there were too many.
    pub open spec fn begin_turn(self) -> RunView {
        if self.turn >= MAX_TURNS {
            self.fail(
                None,
                "turn_limit_reached"@,
                "Agent Run exceeded the 128-turn safety limit"@,
            )
        } else {
            RunView {
                turn: (self.turn + 1) as u64,
                phase: RunPhase::Checkpoint(CheckpointAt::Turn),
                ..self
            }
        }
    }

    /// The next call of this turn, or the next turn.
    pub open spec fn next_call(self) -> RunView {
        if self.answered < self.calls.len() {
            let asked = self.calls[self.answered as int];
            let call = ToolCallView {
                id: run::numbered(self.run_id + "-tool-"@, bumped(self.tool_sequence) as nat),
                tool_name: asked.name,
                arguments: asked.arguments,
            };
            RunView {
                tool_sequence: bumped(self.tool_sequence),
                call: Some(call),
                ..self
            }.emit(
                EventView::ToolCallRequested {
                    run_id: self.run_id,
                    turn_id: self.turn_id(),
                    model_tool_call_id: asked.id,
                    call,
                    extensions: ExtensionsView::empty(),
                },
            )
        } else {
            self.begin_turn()
        }
    }

    /// Behind a complete turn of the model: the run is over where it called no
    /// tool.
    pub open spec fn collected(self, chosen: Option<TerminalView>) -> Progress {
        if self.calls.len() == 0 {
            self.finish(TerminalView::Completed { final_message: self.text }, chosen)
        } else {
            (
                RunView {
                    messages: self.messages.push(
                        MessageView::Assistant {
                            text: if self.text.len() == 0 {
                                None
                            } else {
                                Some(self.text)
                            },
                            tool_calls: self.calls,
                        },
                    ),
                    answered: 0,
                    ..self
                }.next_call(),
                chosen,
            )
        }
    }

    /// Behind the stream of the model, which it completed or did not.
    pub open spec fn stream_ended(self, completed: bool, chosen: Option<TerminalView>) -> Progress {
        match stop::stop_status(chosen) {
            Some(status) => self.finish(status, chosen),
            None => if completed {
                self.collected(chosen)
            } else {
                (
                    self.fail(
                        Some(self.turn_id()),
                        "model_stream_incomplete"@,
                        "model stream ended without a completed event"@,
                    ),
                    chosen,
                )
            },
        }
    }

    /// Behind a recorded event of the model.
    pub open spec fn heard(self, event: StreamEventView, chosen: Option<TerminalView>) -> Progress {
        match event {
            StreamEventView::TextDelta { delta, .. } => (
                RunView {
                    text: self.text + delta,
                    phase: RunPhase::NextModelEvent,
                    ..self
                },
                chosen,
            ),
            StreamEventView::ToolCall { call, .. } => if has_call(self.calls, call.id) {
                (
                    self.fail(
                        Some(self.turn_id()),
                        "duplicate_model_tool_call_id"@,
                        "model emitted duplicate tool call id '"@ + call.id + "' in one turn"@,
                    ),
                    chosen,
                )
            } else {
                (
                    RunView {
                        calls: self.calls.push(call),
                        phase: RunPhase::NextModelEvent,
                        ..self
                    },
                    chosen,
                )
            },
            StreamEventView::Completed { .. } => self.stream_ended(true, chosen),
            StreamEventView::Failed { error, .. } => (
                self.fail(Some(self.turn_id()), error.code, error.message),
                chosen,
            ),
            _ => (self.in_phase(RunPhase::NextModelEvent), chosen),
        }
    }

    /// What the current call came to is recorded.
    pub open spec fn result(self, output: OutputView) -> RunView {
        self.emit(
            EventView::ToolResult {
                run_id: self.run_id,
                turn_id: self.turn_id(),
                result: ToolResultView { call_id: self.call->Some_0.id, output },
                extensions: ExtensionsView::empty(),
            },
        )
    }

    /// The model is told what the current call came to.
    pub open spec fn answer(self, output: OutputView) -> RunView {
        let asked = self.calls[self.answered as int];
        RunView {
            messages: self.messages.push(
                MessageView::Tool {
                    content: model::result_content(output),
                    name: asked.name,
                    tool_call_id: asked.id,
                },
            ),
            answered: self.answered + 1,
            ..self
        }
    }

    /// Behind a recorded result.
    pub open spec fn after_result(
        self,
        output: OutputView,
        chosen: Option<TerminalView>,
    ) -> Progress {
        match stop::stop_status(chosen) {
            Some(status) => self.finish(status, chosen),
            None => match output {
                OutputView::Failure { error, .. } => (
                    self.answer(output).emit(
                        EventView::Error {
                            run_id: self.run_id,
                            turn_id: Some(self.turn_id()),
                            error: AgentErrorView {
                                code: error.code,
                                message: error.message,
                                recoverable: true,
                            },
                            extensions: ExtensionsView::empty(),
                        },
                    ),
                    chosen,
                ),
                OutputView::Success { .. } => (self.answer(output).next_call(), chosen),
            },
        }
    }

    /// Behind a decision that was recorded.
    pub open spec fn after_decision(self, decision: DecisionView) -> RunView {
        match decision {
            DecisionView::Approve => self.in_phase(RunPhase::Checkpoint(CheckpointAt::Execution)),
            DecisionView::Deny { reason } => self.result(
                call_failure("approval_denied"@, reason),
            ),
        }
    }

    /// Behind an event that was appended.
    pub open spec fn after_commit(
        self,
        event: EventView,
        chosen: Option<TerminalView>,
    ) -> Progress {
        match event {
            EventView::RunStarted { .. } => (self.begin_turn(), chosen),
            EventView::TurnStarted { .. } => (
                RunView {
                    text: Seq::empty(),
                    calls: Seq::empty(),
                    answered: 0,
                    phase: RunPhase::OpenStream,
                    ..self
                },
                chosen,
            ),
            EventView::ModelOutput { event: heard, .. } => self.heard(heard, chosen),
            EventView::ToolCallRequested { .. } => (
                self.in_phase(RunPhase::ClassifyCall),
                chosen,
            ),
            EventView::ApprovalRequested { request, .. } => (
                RunView { approval: Some(request), phase: RunPhase::DecideApproval, ..self },
                chosen,
            ),
            EventView::ApprovalResolved { decision, .. } => (
                self.after_decision(decision),
                chosen,
            ),
            EventView::ToolResult { result, .. } => self.after_result(result.output, chosen),
            EventView::Error { error, .. } => if error.recoverable {
                (self.next_call(), chosen)
            } else {
                self.finish(TerminalView::Failed { error }, chosen)
            },
            EventView::RunFinished { status, .. } => (
                RunView { phase: RunPhase::Done, end: Some(EndView::Finished(status)), ..self },
                chosen,
            ),
        }
    }

    /// Behind the attempt to append the pending event.
    pub open spec fn appended(self, done: bool, chosen: Option<TerminalView>) -> Progress {
        let event = self.pending->Some_0;
        if done {
            RunView {
                pending: None,
                sequence: bumped(self.sequence),
                committed: self.committed.push(event),
                ..self
            }.after_commit(event, chosen)
        } else {
            (
                RunView {
                    pending: None,
                    phase: RunPhase::Done,
                    end: Some(
                        if event is ToolResult {
                            EndView::ToolResultIndeterminate(event)
                        } else {
                            EndView::EventSinkFailed
                        },
                    ),
                    ..self
                },
                chosen,
            )
        }
    }

    /// Behind a checkpoint that the run passed.
    pub open spec fn passed(self, at: CheckpointAt) -> RunView {
        match at {
            CheckpointAt::Turn => self.emit(
                EventView::TurnStarted {
                    run_id: self.run_id,
                    turn_id: self.turn_id(),
                    extensions: ExtensionsView::empty(),
                },
            ),
            CheckpointAt::ModelEvent => RunView { held: None, ..self }.emit(
                EventView::ModelOutput {
                    run_id: self.run_id,
                    turn_id: self.turn_id(),
                    event: self.held->Some_0,
                    extensions: ExtensionsView::empty(),
                },
            ),
            CheckpointAt::Execution => self.in_phase(RunPhase::Execute),
        }
    }

    /// Behind what the tools say about the current call.
    pub open spec fn classified(self, policy: CallPolicyView) -> RunView {
        match policy {
            CallPolicyView::Allow => RunView {
                allowed: true,
                phase: RunPhase::Checkpoint(CheckpointAt::Execution),
                ..self
            },
            CallPolicyView::RequiresApproval { reason } => RunView {
                allowed: false,
                approval_sequence: bumped(self.approval_sequence),
                ..self
            }.emit(
                EventView::ApprovalRequested {
                    run_id: self.run_id,
                    turn_id: self.turn_id(),
                    request: ApprovalView {
                        id: run::numbered(
                            self.run_id + "-approval-"@,
                            bumped(self.approval_sequence) as nat,
                        ),
                        call: self.call->Some_0,
                        reason,
                    },
                    extensions: ExtensionsView::empty(),
                },
            ),
            CallPolicyView::Reject { reason } => RunView { allowed: false, ..self }.result(
                call_failure("tool_rejected"@, reason),
            ),
        }
    }

    /// A decision about the approval that was asked for is recorded.
    pub open spec fn decided(self, decision: DecisionView) -> RunView {
        self.emit(
            EventView::ApprovalResolved {
                run_id: self.run_id,
                turn_id: self.turn_id(),
                approval_id: self.approval->Some_0.id,
                decision: match decision {
                    DecisionView::Approve => DecisionView::Approve,
                    DecisionView::Deny { reason } => DecisionView::Deny {
                        reason: runtime::denial_reason(reason),
                    },
                },
                extensions: ExtensionsView::empty(),
            },
        )
    }

    /// How an input moves the run on. An input that it does not wait for leaves
    /// it where it is.
    pub open spec fn step(self, input: InputView, chosen: Option<TerminalView>) -> Progress {
        match (self.phase, input) {
            (RunPhase::Emit, InputView::Appended(done)) => self.appended(done, chosen),
            (RunPhase::Checkpoint(at), InputView::Control(flow)) => {
                let now = stop::after_checkpoint(chosen, flow);
                match stop::stop_status(now) {
                    Some(status) => self.finish(status, now),
                    None => (self.passed(at), now),
                }
            },
            (RunPhase::OpenStream, InputView::Opened(Ok(()))) => (
                self.in_phase(RunPhase::NextModelEvent),
                chosen,
            ),
            (RunPhase::OpenStream, InputView::Opened(Err(error))) => {
                match stop::stop_status(chosen) {
                    Some(status) => self.finish(status, chosen),
                    None => (
                        self.fail(Some(self.turn_id()), error.code, error.message),
                        chosen,
                    ),
                }
            },
            (RunPhase::NextModelEvent, InputView::Model(Some(event))) => (
                RunView {
                    held: Some(event),
                    phase: RunPhase::Checkpoint(CheckpointAt::ModelEvent),
                    ..self
                },
                chosen,
            ),
            (RunPhase::NextModelEvent, InputView::Model(None)) => self.stream_ended(false, chosen),
            (RunPhase::ClassifyCall, InputView::Policy(policy)) => (
                self.classified(policy),
                chosen,
            ),
            (RunPhase::DecideApproval, InputView::Decided(decision)) => {
                match stop::stop_status(chosen) {
                    Some(status) => self.finish(status, chosen),
                    None => (self.decided(decision), chosen),
                }
            },
            (RunPhase::Execute, InputView::Executed(output)) => (self.result(output), chosen),
            _ => (self, chosen),
        }
    }

    /// The last event that was appended.
    pub open spec fn last(self) -> EventView {
        self.committed[self.committed.len() - 1]
    }

    /// Whether the run deals with a call: with the current one of this turn,
    /// whose request is recorded or about to be.
    pub open spec fn has_current_call(self) -> bool {
        self.call is Some && self.answered < self.calls.len()
    }

    /// The current call may be made: the tools allow it, or a person has
    /// approved exactly this call.
    pub open spec fn is_cleared(self) -> bool {
        &&& self.has_current_call()
        &&& if self.allowed {
            self.committed.len() >= 1 && (self.last() matches EventView::ToolCallRequested {
                call,
                ..
            } && Some(call) == self.call)
        } else {
            &&& self.committed.len() >= 2
            &&& self.last() matches EventView::ApprovalResolved { decision, .. }
            &&& decision is Approve
            &&& self.committed[self.committed.len() - 2] matches EventView::ApprovalRequested {
                request,
                ..
            }
            &&& Some(request.call) == self.call
        }
    }

    /// An approval was asked for the current call, and nothing came behind it.
    pub open spec fn approval_is_open(self) -> bool {
        &&& self.has_current_call()
        &&& !self.allowed
        &&& self.committed.len() >= 1
        &&& self.last() matches EventView::ApprovalRequested { request, .. }
        &&& Some(request.call) == self.call
    }

    /// What holds of the pending event.
    pub open spec fn pending_fits(self) -> bool {
        match self.pending {
            None => false,
            Some(event) => {
                &&& event.run() == self.run_id
                &&& event.extensions() == ExtensionsView::empty()
                &&& event is RunStarted <==> self.committed.len() == 0
                &&& event matches EventView::ToolCallRequested { call, .. }
                    ==> self.has_current_call() && Some(call) == self.call
                &&& event matches EventView::ApprovalRequested { request, .. }
                    ==> self.has_current_call() && !self.allowed && Some(request.call) == self.call
                &&& event is ApprovalResolved ==> self.approval_is_open()
                &&& event is ToolResult ==> self.has_current_call()
                &&& event matches EventView::Error { error, .. } ==> (error.recoverable
                    ==> self.answered <= self.calls.len())
            },
        }
    }

    /// What holds of the phase.
    pub open spec fn phase_fits(self) -> bool {
        match self.phase {
            RunPhase::Emit => self.pending_fits(),
            RunPhase::Checkpoint(CheckpointAt::ModelEvent) => self.held is Some,
            RunPhase::Checkpoint(CheckpointAt::Execution) => self.is_cleared(),
            RunPhase::ClassifyCall => {
                &&& self.has_current_call()
                &&& self.last() matches EventView::ToolCallRequested { call, .. }
                &&& Some(call) == self.call
            },
            RunPhase::DecideApproval => self.approval_is_open() && self.approval is Some,
            RunPhase::Execute => self.is_cleared(),
            RunPhase::Done => self.end is Some,
            _ => true,
        }
    }

    /// The events that were appended are in order: the first, and only the
    /// first, starts the run; the last, and only the last, may finish it; and
    /// all are the run's own.
    pub open spec fn is_ordered(self) -> bool {
        &&& self.phase != RunPhase::Emit && self.phase != RunPhase::Done ==> self.committed.len()
            > 0
        &&& forall|at: int|
            0 <= at < self.committed.len() ==> {
                &&& (#[trigger] self.committed[at]).run() == self.run_id
                &&& self.committed[at] is RunStarted <==> at == 0
                &&& self.committed[at] is RunFinished ==> at == self.committed.len() - 1
                    && self.phase == RunPhase::Done
            }
    }

    /// The next event has the number behind those that were appended.
    pub open spec fn is_numbered(self) -> bool {
        self.committed.len() < u64::MAX ==> self.sequence == self.committed.len() + 1
    }

    /// What holds of a run that is not over once it has started.
    pub open spec fn is_open(self) -> bool {
        &&& self.turn <= MAX_TURNS
        &&& self.is_numbered()
        &&& self.end is None
        &&& self.committed.len() > 0
        &&& forall|at: int|
            0 <= at < self.committed.len() ==> {
                &&& (#[trigger] self.committed[at]).run() == self.run_id
                &&& self.committed[at] is RunStarted <==> at == 0
                &&& !(self.committed[at] is RunFinished)
            }
    }

    /// What holds in every state of a run.
    pub open spec fn well_formed(self) -> bool {
        &&& self.turn <= MAX_TURNS
        &&& self.is_numbered()
        &&& self.end is Some <==> self.phase == RunPhase::Done
        &&& self.end matches Some(EndView::Finished(status)) ==> self.committed.len() > 0
            && self.last() == (EventView::RunFinished {
            run_id: self.run_id,
            status,
            extensions: ExtensionsView::empty(),
        })
        &&& self.phase_fits()
        &&& self.is_ordered()
    }
}

proof fn lemma_emitting(run: RunView, event: EventView)
    requires
        run.is_open(),
        run.emit(event).pending_fits(),
    ensures
        run.emit(event).well_formed(),
{
}

proof fn lemma_finishing(run: RunView, proposed: TerminalView, chosen: Option<TerminalView>)
    requires
        run.is_open(),
    ensures
        run.finish(proposed, chosen).0.well_formed(),
{
    lemma_emitting(
        run,
        EventView::RunFinished {
            run_id: run.run_id,
            status: stop::resolved(chosen, proposed),
            extensions: ExtensionsView::empty(),
        },
    );
}

proof fn lemma_next_call(run: RunView)
    requires
        run.is_open(),
        run.answered <= run.calls.len(),
    ensures
        run.next_call().well_formed(),
{
    if run.answered < run.calls.len() {
        let next = run.next_call();
        let open = RunView { tool_sequence: next.tool_sequence, call: next.call, ..run };
        lemma_emitting(open, next.pending->Some_0);
    } else {
        lemma_begin_turn(run);
    }
}

proof fn lemma_begin_turn(run: RunView)
    requires
        run.is_open(),
    ensures
        run.begin_turn().well_formed(),
{
}

proof fn lemma_stream_ended(run: RunView, completed: bool, chosen: Option<TerminalView>)
    requires
        run.is_open(),
    ensures
        run.stream_ended(completed, chosen).0.well_formed(),
{
    if stop::stop_status(chosen) is Some {
        lemma_finishing(run, stop::stop_status(chosen)->Some_0, chosen);
    } else if completed {
        if run.calls.len() == 0 {
            lemma_finishing(run, TerminalView::Completed { final_message: run.text }, chosen);
        } else {
            let told = RunView {
                messages: run.messages.push(
                    MessageView::Assistant {
                        text: if run.text.len() == 0 {
                            None
                        } else {
                            Some(run.text)
                        },
                        tool_calls: run.calls,
                    },
                ),
                answered: 0,
                ..run
            };
            lemma_next_call(told);
        }
    }
}

proof fn lemma_after_result(run: RunView, output: OutputView, chosen: Option<TerminalView>)
    requires
        run.is_open(),
        run.has_current_call(),
    ensures
        run.after_result(output, chosen).0.well_formed(),
{
    if stop::stop_status(chosen) is Some {
        lemma_finishing(run, stop::stop_status(chosen)->Some_0, chosen);
    } else {
        match output {
            OutputView::Failure { error, .. } => {},
            OutputView::Success { .. } => {
                lemma_next_call(run.answer(output));
            },
        }
    }
}

proof fn lemma_appended(run: RunView, done: bool, chosen: Option<TerminalView>)
    requires
        run.well_formed(),
        run.phase == RunPhase::Emit,
    ensures
        run.appended(done, chosen).0.well_formed(),
{
    let event = run.pending->Some_0;
    if done {
        let next = RunView {
            pending: None,
            sequence: bumped(run.sequence),
            committed: run.committed.push(event),
            ..run
        };
        assert(next.last() == event);
        assert forall|at: int| 0 <= at < next.committed.len() implies {
            &&& (#[trigger] next.committed[at]).run() == next.run_id
            &&& next.committed[at] is RunStarted <==> at == 0
            &&& next.committed[at] is RunFinished ==> at == next.committed.len() - 1
        } by {
            if at < run.committed.len() {
                assert(next.committed[at] == run.committed[at]);
            }
        }
        match event {
            EventView::ModelOutput { event: heard, .. } => {
                if heard is Completed {
                    lemma_stream_ended(next, true, chosen);
                }
            },
            EventView::ApprovalResolved { decision, .. } => {
                assert(next.committed[next.committed.len() - 2] == run.last());
            },
            EventView::ToolResult { result, .. } => {
                lemma_after_result(next, result.output, chosen);
            },
            EventView::Error { error, .. } => {
                if error.recoverable {
                    lemma_next_call(next);
                } else {
                    lemma_finishing(next, TerminalView::Failed { error }, chosen);
                }
            },
            EventView::RunStarted { .. } => {
                lemma_begin_turn(next);
            },
            _ => {},
        }
    }
}

/// Every input keeps what holds of a run: its events start with the start of
/// the run and end with its finish, all of them are its own, it takes no more
/// turns than it may, and no call is made that the tools do not allow and no
/// person has approved.
pub proof fn law_runs_stay_in_order(
    run: RunView,
    input: InputView,
    chosen: Option<TerminalView>,
)
    requires
        run.well_formed(),
    ensures
        run.step(input, chosen).0.well_formed(),
{
    match (run.phase, input) {
        (RunPhase::Emit, InputView::Appended(done)) => {
            lemma_appended(run, done, chosen);
        },
        (RunPhase::Checkpoint(at), InputView::Control(flow)) => {
            let now = stop::after_checkpoint(chosen, flow);
            if stop::stop_status(now) is Some {
                lemma_finishing(run, stop::stop_status(now)->Some_0, now);
            }
        },
        (RunPhase::OpenStream, InputView::Opened(Err(error))) => {
            if stop::stop_status(chosen) is Some {
                lemma_finishing(run, stop::stop_status(chosen)->Some_0, chosen);
            }
        },
        (RunPhase::NextModelEvent, InputView::Model(None)) => {
            lemma_stream_ended(run, false, chosen);
        },
        (RunPhase::DecideApproval, InputView::Decided(decision)) => {
            if stop::stop_status(chosen) is Some {
                lemma_finishing(run, stop::stop_status(chosen)->Some_0, chosen);
            }
        },
        _ => {},
    }
}

/// A tool is called only for a call that the tools allow, or for exactly the
/// call that a person was asked about and has approved.
pub proof fn law_calls_are_cleared(run: RunView)
    requires
        run.well_formed(),
        run.phase == RunPhase::Execute,
    ensures
        run.call is Some,
        !run.allowed ==> {
            let count = run.committed.len() as int;
            &&& count >= 2
            &&& run.committed[count - 1] matches EventView::ApprovalResolved { decision, .. }
            &&& decision is Approve
            &&& run.committed[count - 2] matches EventView::ApprovalRequested { request, .. }
            &&& Some(request.call) == run.call
        },
        run.allowed ==> {
            let count = run.committed.len() as int;
            &&& count >= 1
            &&& run.committed[count - 1] matches EventView::ToolCallRequested { call, .. }
            &&& Some(call) == run.call
        },
{
}

/// A run that is over stays as it is, whatever it is handed.
pub proof fn law_finished_runs_record_nothing(
    run: RunView,
    input: InputView,
    chosen: Option<TerminalView>,
)
    requires
        run.well_formed(),
        run.phase == RunPhase::Done,
    ensures
        run.step(input, chosen) == (run, chosen),
{
}

/// A run that ends in order has recorded its end, with the status that was
/// chosen first, as its last event.
pub proof fn law_the_last_event_is_the_end(run: RunView, status: TerminalView)
    requires
        run.well_formed(),
        run.end == Some(EndView::Finished(status)),
    ensures
        run.committed.len() > 0,
        run.last() == (EventView::RunFinished {
            run_id: run.run_id,
            status,
            extensions: ExtensionsView::empty(),
        }),
        forall|at: int|
            0 <= at < run.committed.len() - 1 ==> !((#[trigger] run.committed[at]) is RunFinished),
{
}

} // verus!

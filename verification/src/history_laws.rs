//! What the recorded events of a run tell of it: what the model said in a turn,
//! which calls it made, what it was told, and how the run ended.

use crate::model;
use crate::model::{
    MessageContentView, MessageView, ModelCallView, ModelErrorView, RequestView, StreamEventView,
};
use crate::run::{DecisionView, EventView, TerminalView};
use crate::runtime::{CallPolicyView, CheckpointAt, EndView, InputView, RunPhase};
use crate::runtime_model;
use crate::runtime_model::RunView;
use crate::stop;
use crate::stop::FlowView;
use crate::tool::{ContentView, OutputView};
use vstd::prelude::*;

verus! {

/// What the model said since the last turn began: its pieces of text, one behind
/// the other.
pub open spec fn turn_text(events: Seq<EventView>) -> Seq<char>
    decreases events.len(),
{
    if events.len() == 0 {
        Seq::empty()
    } else {
        let earlier = turn_text(events.drop_last());
        match events.last() {
            EventView::TurnStarted { .. } => Seq::empty(),
            EventView::ModelOutput { event: StreamEventView::TextDelta { delta, .. }, .. } => {
                earlier + delta
            },
            _ => earlier,
        }
    }
}

/// The calls that the model made since the last turn began.
pub open spec fn turn_calls(events: Seq<EventView>) -> Seq<ModelCallView>
    decreases events.len(),
{
    if events.len() == 0 {
        Seq::empty()
    } else {
        let earlier = turn_calls(events.drop_last());
        match events.last() {
            EventView::TurnStarted { .. } => Seq::empty(),
            EventView::ModelOutput { event: StreamEventView::ToolCall { call, .. }, .. } => {
                earlier.push(call)
            },
            _ => earlier,
        }
    }
}

/// How many calls have their result since the last turn began.
pub open spec fn turn_results(events: Seq<EventView>) -> nat
    decreases events.len(),
{
    if events.len() == 0 {
        0
    } else {
        let earlier = turn_results(events.drop_last());
        match events.last() {
            EventView::TurnStarted { .. } => 0,
            EventView::ToolResult { .. } => earlier + 1,
            _ => earlier,
        }
    }
}

/// How many turns have begun.
pub open spec fn turns(events: Seq<EventView>) -> nat
    decreases events.len(),
{
    if events.len() == 0 {
        0
    } else if events.last() is TurnStarted {
        turns(events.drop_last()) + 1
    } else {
        turns(events.drop_last())
    }
}

/// The conversation that began with `asked`: behind each turn in which the model
/// called tools comes what it said in it, with its calls, and behind each result
/// of a call what it is told of the result.
pub open spec fn conversation(asked: Seq<MessageView>, events: Seq<EventView>) -> Seq<MessageView>
    decreases events.len(),
{
    if events.len() == 0 {
        asked
    } else {
        let before = events.drop_last();
        let earlier = conversation(asked, before);
        match events.last() {
            EventView::ModelOutput { event: StreamEventView::Completed { .. }, .. } => {
                if turn_calls(before).len() == 0 {
                    earlier
                } else {
                    earlier.push(
                        MessageView::Assistant {
                            text: if turn_text(before) == Seq::<char>::empty() {
                                None
                            } else {
                                Some(turn_text(before))
                            },
                            tool_calls: turn_calls(before),
                        },
                    )
                }
            },
            EventView::ToolResult { result, .. } => {
                let call = turn_calls(before)[turn_results(before) as int];
                earlier.push(
                    MessageView::Tool {
                        content: model::result_content(result.output),
                        name: call.name,
                        tool_call_id: call.id,
                    },
                )
            },
            _ => earlier,
        }
    }
}

/// Whether nothing is left for a run but to record why it fails, and that it is
/// over.
pub open spec fn is_ending(run: RunView) -> bool {
    ||| run.phase == RunPhase::Done
    ||| run.phase == RunPhase::Emit && (run.pending matches Some(EventView::RunFinished { .. }))
    ||| run.phase == RunPhase::Emit && (run.pending matches Some(
        EventView::Error { error, .. },
    ) && !error.recoverable)
}

/// Whether a run stands where the model still speaks.
pub open spec fn is_listening(run: RunView) -> bool {
    match run.phase {
        RunPhase::OpenStream => true,
        RunPhase::NextModelEvent => true,
        RunPhase::Checkpoint(CheckpointAt::ModelEvent) => true,
        RunPhase::Emit => run.pending matches Some(EventView::ModelOutput { .. }),
        _ => false,
    }
}

/// Whether a run stands where one of the calls of this turn is dealt with.
pub open spec fn is_calling(run: RunView) -> bool {
    match run.phase {
        RunPhase::ClassifyCall => true,
        RunPhase::DecideApproval => true,
        RunPhase::Execute => true,
        RunPhase::Checkpoint(CheckpointAt::Execution) => true,
        RunPhase::Emit => match run.pending {
            Some(EventView::ToolCallRequested { .. }) => true,
            Some(EventView::ApprovalRequested { .. }) => true,
            Some(EventView::ApprovalResolved { .. }) => true,
            Some(EventView::ToolResult { .. }) => true,
            _ => false,
        },
        _ => false,
    }
}

/// Whether the recorded events tell all that a run knows: what the model said in
/// this turn, which calls it made, how many of them have their result, and the
/// whole conversation, which began with `asked`. A run that was completed has
/// what the model said last as its message.
pub open spec fn is_told(
    run: RunView,
    chosen: Option<TerminalView>,
    asked: Seq<MessageView>,
) -> bool {
    &&& run.text == turn_text(run.committed)
    &&& !is_ending(run) ==> {
        &&& run.calls == turn_calls(run.committed)
        &&& run.answered == turn_results(run.committed)
        &&& run.messages == conversation(asked, run.committed)
        &&& !(chosen matches Some(TerminalView::Completed { .. }))
    }
    &&& is_listening(run) ==> run.answered == 0
    &&& is_calling(run) ==> {
        &&& run.answered < run.calls.len()
        &&& run.call matches Some(call)
        &&& call.tool_name == run.calls[run.answered as int].name
        &&& call.arguments == run.calls[run.answered as int].arguments
    }
    &&& run.phase == RunPhase::Emit ==> match run.pending {
        Some(EventView::ToolCallRequested { model_tool_call_id, call, .. }) => {
            &&& run.call == Some(call)
            &&& model_tool_call_id == run.calls[run.answered as int].id
        },
        Some(EventView::ApprovalRequested { request, .. }) => run.call == Some(request.call),
        Some(EventView::ToolResult { result, .. }) => run.call matches Some(call) && call.id
            == result.call_id,
        Some(EventView::Error { error, .. }) => error.recoverable ==> run.answered
            <= run.calls.len(),
        Some(EventView::RunFinished { status, .. }) => chosen == Some(status),
        _ => true,
    }
    &&& chosen matches Some(TerminalView::Completed { final_message }) ==> {
        &&& final_message == turn_text(run.committed)
        &&& turn_calls(run.committed).len() == 0
        &&& run.phase == RunPhase::Emit ==> (run.pending matches Some(
            EventView::RunFinished { .. },
        ))
    }
    &&& run.end matches Some(EndView::Finished(status)) ==> chosen == Some(status)
}

proof fn lemma_told_next_call(
    run: RunView,
    chosen: Option<TerminalView>,
    asked: Seq<MessageView>,
)
    requires
        run.end is None,
        run.text == turn_text(run.committed),
        run.calls == turn_calls(run.committed),
        run.answered == turn_results(run.committed),
        run.messages == conversation(asked, run.committed),
        !(chosen matches Some(TerminalView::Completed { .. })),
    ensures
        is_told(run.next_call(), chosen, asked),
{
}

proof fn lemma_told_finish(
    run: RunView,
    proposed: TerminalView,
    chosen: Option<TerminalView>,
    asked: Seq<MessageView>,
)
    requires
        run.end is None,
        run.text == turn_text(run.committed),
        !(chosen matches Some(TerminalView::Completed { .. })),
        proposed matches TerminalView::Completed { final_message } ==> {
            &&& final_message == turn_text(run.committed)
            &&& turn_calls(run.committed).len() == 0
        },
    ensures
        is_told(
            run.finish(proposed, chosen).0,
            run.finish(proposed, chosen).1,
            asked,
        ),
{
}

proof fn lemma_told_commit(
    run: RunView,
    chosen: Option<TerminalView>,
    asked: Seq<MessageView>,
)
    requires
        run.well_formed(),
        run.phase == RunPhase::Emit,
        is_told(run, chosen, asked),
    ensures
        is_told(run.appended(true, chosen).0, run.appended(true, chosen).1, asked),
{
    let event = run.pending->Some_0;
    let recorded = RunView {
        pending: None,
        sequence: runtime_model::bumped(run.sequence),
        committed: run.committed.push(event),
        ..run
    };
    assert(recorded.committed.drop_last() =~= run.committed);
    assert(recorded.committed.last() == event);
    match event {
        EventView::ModelOutput { event: heard, .. } => {
            match heard {
                StreamEventView::Completed { .. } => {
                    if let Some(status) = stop::stop_status(chosen) {
                        lemma_told_finish(recorded, status, chosen, asked);
                    } else if run.calls.len() == 0 {
                        lemma_told_finish(
                            recorded,
                            TerminalView::Completed { final_message: run.text },
                            chosen,
                            asked,
                        );
                    } else {
                        let told = RunView {
                            messages: run.messages.push(
                                MessageView::Assistant {
                                    text: if run.text.len() == 0 {
                                        None
                                    } else {
                                        Some(run.text)
                                    },
                                    tool_calls: run.calls,
                                },
                            ),
                            answered: 0,
                            ..recorded
                        };
                        if run.text.len() == 0 {
                            assert(run.text =~= Seq::<char>::empty());
                        }
                        lemma_told_next_call(told, chosen, asked);
                    }
                },
                _ => {},
            }
        },
        EventView::ToolResult { result, .. } => {
            if let Some(status) = stop::stop_status(chosen) {
                lemma_told_finish(recorded, status, chosen, asked);
            } else {
                lemma_told_next_call(recorded.answer(result.output), chosen, asked);
            }
        },
        EventView::Error { error, .. } => {
            if error.recoverable {
                lemma_told_next_call(recorded, chosen, asked);
            } else {
                lemma_told_finish(recorded, TerminalView::Failed { error }, chosen, asked);
            }
        },
        _ => {},
    }
}

/// A run that has not begun is told by no event.
pub proof fn law_histories_begin_with_the_request(
    run_id: Seq<char>,
    request: RequestView,
    chosen: Option<TerminalView>,
)
    requires
        !(chosen matches Some(TerminalView::Completed { .. })),
    ensures
        is_told(RunView::initial(run_id, request), chosen, request.messages),
{
}

/// Every input keeps it so that the recorded events tell all that a run knows.
pub proof fn law_histories_tell_their_run(
    run: RunView,
    input: InputView,
    chosen: Option<TerminalView>,
    asked: Seq<MessageView>,
)
    requires
        run.well_formed(),
        is_told(run, chosen, asked),
    ensures
        is_told(run.step(input, chosen).0, run.step(input, chosen).1, asked),
{
    match (run.phase, input) {
        (RunPhase::Emit, InputView::Appended(done)) => {
            if done {
                lemma_told_commit(run, chosen, asked);
            }
        },
        (RunPhase::Checkpoint(at), InputView::Control(flow)) => {
            let now = stop::after_checkpoint(chosen, flow);
            if let Some(status) = stop::stop_status(now) {
                lemma_told_finish(run, status, now, asked);
            }
        },
        (RunPhase::OpenStream, InputView::Opened(Err(error))) => {
            if let Some(status) = stop::stop_status(chosen) {
                lemma_told_finish(run, status, chosen, asked);
            }
        },
        (RunPhase::NextModelEvent, InputView::Model(None)) => {
            if let Some(status) = stop::stop_status(chosen) {
                lemma_told_finish(run, status, chosen, asked);
            }
        },
        (RunPhase::DecideApproval, InputView::Decided(decision)) => {
            if let Some(status) = stop::stop_status(chosen) {
                lemma_told_finish(run, status, chosen, asked);
            }
        },
        _ => {},
    }
}

/// A run that was completed has as its final message exactly what the model said
/// since the last turn began, and the model called no tool in it.
pub proof fn law_the_final_message_is_what_was_said(
    run: RunView,
    chosen: Option<TerminalView>,
    asked: Seq<MessageView>,
    final_message: Seq<char>,
)
    requires
        run.well_formed(),
        is_told(run, chosen, asked),
        run.end == Some(EndView::Finished(TerminalView::Completed { final_message })),
    ensures
        final_message == turn_text(run.committed),
        turn_calls(run.committed).len() == 0,
{
}

/// Once the model has completed a turn that nobody asked to stop, the run is
/// completed with all that the model said in it where it called no tool.
/// Otherwise the model is told what it said, with its calls, and the first of its
/// calls is requested.
pub proof fn law_completed_turns_end_the_run_or_call(
    run: RunView,
    asked: Seq<MessageView>,
)
    requires
        run.well_formed(),
        is_told(run, None, asked),
        run.phase == RunPhase::Emit,
        run.pending matches Some(EventView::ModelOutput { event, .. }) && event is Completed,
    ensures
        ({
            let next = run.step(InputView::Appended(true), None).0;
            let said = turn_text(run.committed);
            let calls = turn_calls(run.committed);
            if calls.len() == 0 {
                next.pending matches Some(EventView::RunFinished { status, .. }) && status
                    == (TerminalView::Completed { final_message: said })
            } else {
                &&& next.messages.len() == run.messages.len() + 1
                &&& next.messages.last() matches MessageView::Assistant { text, tool_calls }
                &&& tool_calls == calls
                &&& if said.len() > 0 {
                    text == Some(said)
                } else {
                    text is None
                }
                &&& next.pending matches Some(
                    EventView::ToolCallRequested { model_tool_call_id, call, .. },
                )
                &&& model_tool_call_id == calls[0].id
                &&& call.tool_name == calls[0].name
                &&& call.arguments == calls[0].arguments
            }
        }),
{
}

/// What the model sends is recorded as it is, once the checkpoint lets it pass.
pub proof fn law_heard_events_are_recorded(run: RunView, event: StreamEventView)
    requires
        run.phase == RunPhase::NextModelEvent,
    ensures
        ({
            let heard = run.step(InputView::Model(Some(event)), None).0;
            let passed = heard.step(InputView::Control(FlowView::Continue), None).0;
            &&& heard.phase == RunPhase::Checkpoint(CheckpointAt::ModelEvent)
            &&& passed.phase == RunPhase::Emit
            &&& passed.pending matches Some(EventView::ModelOutput { event: recorded, .. })
            &&& recorded == event
            &&& passed.committed == run.committed
        }),
{
}

/// What a call came to is recorded as its result, and the model is told of it
/// under the name that it gave the call. A failure is recorded as an error that
/// the run goes on behind.
pub proof fn law_results_are_recorded_and_told(
    run: RunView,
    asked: Seq<MessageView>,
    output: OutputView,
)
    requires
        run.well_formed(),
        is_told(run, None, asked),
        run.phase == RunPhase::Execute,
    ensures
        ({
            let done = run.step(InputView::Executed(output), None).0;
            let told = done.step(InputView::Appended(true), None).0;
            let call = turn_calls(run.committed)[turn_results(run.committed) as int];
            &&& done.phase == RunPhase::Emit
            &&& done.pending matches Some(EventView::ToolResult { result, .. })
            &&& result.output == output
            &&& Some(result.call_id) == (match run.call {
                Some(current) => Some(current.id),
                None => None,
            })
            &&& told.messages.len() == run.messages.len() + 1
            &&& told.messages.last() == (MessageView::Tool {
                content: model::result_content(output),
                name: call.name,
                tool_call_id: call.id,
            })
            &&& output matches OutputView::Failure { error, .. } ==> {
                &&& told.pending matches Some(EventView::Error { error: recorded, .. })
                &&& recorded.code == error.code
                &&& recorded.message == error.message
                &&& recorded.recoverable
            }
            &&& output is Success ==> told.pending is Some || told.phase == RunPhase::Checkpoint(
                CheckpointAt::Turn,
            )
        }),
{
    let done = run.step(InputView::Executed(output), None).0;
    let told = done.step(InputView::Appended(true), None).0;
    assert(told.messages.drop_last() =~= run.messages);
}

/// What the model is told of an output: every piece of a success, in order, or
/// the whole of a failure.
pub proof fn law_results_are_told_whole(output: OutputView)
    ensures
        ({
            let told = model::result_content(output);
            match output {
                OutputView::Failure { .. } => told.len() == 1 && told[0]
                    == MessageContentView::Failure(output),
                OutputView::Success { content, .. } => {
                    &&& told.len() == content.len()
                    &&& forall|i: int|
                        0 <= i < content.len() ==> match #[trigger] content[i] {
                            ContentView::Text(text) => told[i] == MessageContentView::Text(text),
                            ContentView::Json(fields) => told[i] == MessageContentView::Json(
                                fields,
                            ),
                        }
                },
            }
        }),
{
}

/// A call that a person denied, or that the tools reject, is not made: it has a
/// failure as its result that says so and why.
pub proof fn law_refused_calls_are_answered(run: RunView, reason: Seq<char>)
    requires
        run.well_formed(),
    ensures
        run.phase == RunPhase::ClassifyCall ==> {
            let next = run.step(InputView::Policy(CallPolicyView::Reject { reason }), None).0;
            &&& next.pending matches Some(EventView::ToolResult { result, .. })
            &&& result.output matches OutputView::Failure { error, .. }
            &&& error.code == "tool_rejected"@
            &&& error.message == reason
            &&& Some(result.call_id) == (match run.call {
                Some(current) => Some(current.id),
                None => None,
            })
        },
        run.phase == RunPhase::Emit && (run.pending matches Some(
            EventView::ApprovalResolved { decision, .. },
        ) && decision == (DecisionView::Deny { reason })) ==> {
            let next = run.step(InputView::Appended(true), None).0;
            &&& next.pending matches Some(EventView::ToolResult { result, .. })
            &&& result.output matches OutputView::Failure { error, .. }
            &&& error.code == "approval_denied"@
            &&& error.message == reason
        },
{
}

/// A call that needs approval is asked about with its reason, and what is decided
/// is recorded. It is executed only once it was approved.
pub proof fn law_approvals_are_asked_and_recorded(
    run: RunView,
    reason: Seq<char>,
    decision: DecisionView,
)
    requires
        run.well_formed(),
    ensures
        run.phase == RunPhase::ClassifyCall ==> {
            let next = run.step(
                InputView::Policy(CallPolicyView::RequiresApproval { reason }),
                None,
            ).0;
            &&& next.pending matches Some(EventView::ApprovalRequested { request, .. })
            &&& request.reason == reason
            &&& Some(request.call) == run.call
        },
        run.phase == RunPhase::ClassifyCall ==> {
            let next = run.step(InputView::Policy(CallPolicyView::Allow), None).0;
            next.phase == RunPhase::Checkpoint(CheckpointAt::Execution) && next.committed
                == run.committed
        },
        run.phase == RunPhase::DecideApproval ==> {
            let next = run.step(InputView::Decided(decision), None).0;
            &&& next.pending matches Some(
                EventView::ApprovalResolved { approval_id, decision: recorded, .. },
            )
            &&& Some(approval_id) == (match run.approval {
                Some(request) => Some(request.id),
                None => None,
            })
            &&& recorded is Approve <==> decision is Approve
        },
        run.phase == RunPhase::Emit && (run.pending matches Some(
            EventView::ApprovalResolved { decision: recorded, .. },
        ) && recorded is Approve) ==> run.step(InputView::Appended(true), None).0.phase
            == RunPhase::Checkpoint(CheckpointAt::Execution),
{
}

/// A model that fails, breaks off or repeats the name of a call fails the run:
/// the error is recorded, and then the run ends with it.
pub proof fn law_broken_streams_fail_the_run(
    run: RunView,
    asked: Seq<MessageView>,
    failed: ModelErrorView,
)
    requires
        run.well_formed(),
        is_told(run, None, asked),
    ensures
        run.phase == RunPhase::NextModelEvent ==> {
            let next = run.step(InputView::Model(None), None).0;
            &&& next.pending matches Some(EventView::Error { error, .. })
            &&& error.code == "model_stream_incomplete"@
            &&& !error.recoverable
        },
        run.phase == RunPhase::OpenStream ==> {
            let next = run.step(InputView::Opened(Err(failed)), None).0;
            &&& next.pending matches Some(EventView::Error { error, .. })
            &&& error.code == failed.code
            &&& error.message == failed.message
            &&& !error.recoverable
        },
        run.phase == RunPhase::Emit && (run.pending matches Some(
            EventView::ModelOutput { event: StreamEventView::Failed { error, .. }, .. },
        ) && error == failed) ==> {
            let next = run.step(InputView::Appended(true), None).0;
            &&& next.pending matches Some(EventView::Error { error, .. })
            &&& error.code == failed.code
            &&& error.message == failed.message
            &&& !error.recoverable
        },
        run.phase == RunPhase::Emit && (run.pending matches Some(
            EventView::ModelOutput { event: StreamEventView::ToolCall { call, .. }, .. },
        ) && exists|i: int|
            0 <= i < turn_calls(run.committed).len() && (#[trigger] turn_calls(
                run.committed,
            )[i]).id == call.id) ==> {
            let next = run.step(InputView::Appended(true), None).0;
            &&& next.pending matches Some(EventView::Error { error, .. })
            &&& error.code == "duplicate_model_tool_call_id"@
            &&& !error.recoverable
        },
        run.phase == RunPhase::Emit && (run.pending matches Some(EventView::Error { error, .. })
            && !error.recoverable) ==> {
            let next = run.step(InputView::Appended(true), None).0;
            &&& next.pending matches Some(EventView::RunFinished { status, .. })
            &&& status matches TerminalView::Failed { error }
            &&& run.pending matches Some(EventView::Error { error: recorded, .. })
            &&& error == recorded
        },
{
}

/// Whether a run has counted its turns.
pub open spec fn counts_turns(run: RunView) -> bool {
    &&& turns(run.committed) <= 128
    &&& run.turn == turns(run.committed) + (if run.phase == RunPhase::Checkpoint(
        CheckpointAt::Turn,
    ) || run.phase == RunPhase::Emit && (run.pending matches Some(EventView::TurnStarted { .. })) {
        1nat
    } else {
        0nat
    }) || is_ending(run)
}

/// A run takes no more than 128 turns, and numbers them from one on.
pub proof fn law_turns_are_counted(
    run: RunView,
    input: InputView,
    chosen: Option<TerminalView>,
)
    requires
        run.well_formed(),
        counts_turns(run),
    ensures
        counts_turns(run.step(input, chosen).0),
{
    if run.phase == RunPhase::Emit {
        if let Some(event) = run.pending {
            let committed = run.committed.push(event);
            assert(committed.drop_last() =~= run.committed);
            assert(committed.last() == event);
        }
    }
}

} // verus!

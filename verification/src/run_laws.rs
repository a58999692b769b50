//! How a run goes on from event to event: what its events are called, what it waits for
//! behind each of them, and what stops it.

use crate::history_laws;
use crate::model::{MessageView, ModelCallView, RequestView, StreamEventView};
use crate::run;
use crate::run::{EventView, TerminalView};
use crate::runtime::{CheckpointAt, EndView, InputView, RunPhase};
use crate::runtime_model;
use crate::runtime_model::RunView;
use crate::stop::FlowView;
use crate::tool::OutputView;
use vstd::prelude::*;

verus! {

/// The turn that an event names.
pub open spec fn named_turn(event: EventView) -> Option<Seq<char>> {
    match event {
        EventView::TurnStarted { turn_id, .. } => Some(turn_id),
        EventView::ModelOutput { turn_id, .. } => Some(turn_id),
        EventView::ToolCallRequested { turn_id, .. } => Some(turn_id),
        EventView::ApprovalRequested { turn_id, .. } => Some(turn_id),
        EventView::ApprovalResolved { turn_id, .. } => Some(turn_id),
        EventView::ToolResult { turn_id, .. } => Some(turn_id),
        EventView::Error { turn_id, .. } => turn_id,
        _ => None,
    }
}

/// Whether the event that is to be recorded names the turn that it belongs to: the last
/// one that has begun.
pub open spec fn names_its_turn(run: RunView) -> bool {
    run.phase == RunPhase::Emit ==> match run.pending {
        Some(event) => named_turn(event) matches Some(turn_id) ==> turn_id == run::numbered(
            "turn-"@,
            history_laws::turns(run.committed.push(event)),
        ),
        None => true,
    }
}

proof fn lemma_turns(events: Seq<EventView>, event: EventView)
    ensures
        history_laws::turns(events.push(event)) == history_laws::turns(events) + (
        if event is TurnStarted {
            1nat
        } else {
            0nat
        }),
{
    assert(events.push(event).drop_last() =~= events);
    assert(events.push(event).last() == event);
}

/// Every event names the turn in which it came: turns are named by their number, which
/// counts how many have begun.
pub proof fn law_events_name_their_turn(
    run: RunView,
    input: InputView,
    chosen: Option<TerminalView>,
)
    requires
        run.well_formed(),
        history_laws::counts_turns(run),
        names_its_turn(run),
    ensures
        names_its_turn(run.step(input, chosen).0),
{
    let next = run.step(input, chosen).0;
    if run.pending is Some {
        lemma_turns(run.committed, run.pending->Some_0);
    }
    if next.pending is Some {
        lemma_turns(next.committed, next.pending->Some_0);
    }
}

/// How many calls were requested.
pub open spec fn requested_calls(events: Seq<EventView>) -> nat
    decreases events.len(),
{
    if events.len() == 0 {
        0
    } else if events.last() is ToolCallRequested {
        requested_calls(events.drop_last()) + 1
    } else {
        requested_calls(events.drop_last())
    }
}

/// How many approvals were asked for.
pub open spec fn requested_approvals(events: Seq<EventView>) -> nat
    decreases events.len(),
{
    if events.len() == 0 {
        0
    } else if events.last() is ApprovalRequested {
        requested_approvals(events.drop_last()) + 1
    } else {
        requested_approvals(events.drop_last())
    }
}

proof fn lemma_requests(events: Seq<EventView>)
    ensures
        requested_calls(events) <= events.len(),
        requested_approvals(events) <= events.len(),
    decreases events.len(),
{
    if events.len() > 0 {
        lemma_requests(events.drop_last());
    }
}

proof fn lemma_pushed(events: Seq<EventView>, event: EventView)
    ensures
        requested_calls(events.push(event)) == requested_calls(events) + (
        if event is ToolCallRequested {
            1nat
        } else {
            0nat
        }),
        requested_approvals(events.push(event)) == requested_approvals(events) + (
        if event is ApprovalRequested {
            1nat
        } else {
            0nat
        }),
{
    assert(events.push(event).drop_last() =~= events);
    assert(events.push(event).last() == event);
}

/// Whether a run has counted its calls and its approvals, and names each by its number.
pub open spec fn counts_calls(run: RunView) -> bool {
    run.committed.len() < u64::MAX && !history_laws::is_ending(run) ==> {
        let calls = requested_calls(run.committed);
        let approvals = requested_approvals(run.committed);
        match (run.phase, run.pending) {
            (RunPhase::Emit, Some(EventView::ToolCallRequested { call, .. })) => {
                &&& run.tool_sequence == calls + 1
                &&& run.approval_sequence == approvals
                &&& call.id == run::numbered(run.run_id + "-tool-"@, calls + 1)
            },
            (RunPhase::Emit, Some(EventView::ApprovalRequested { request, .. })) => {
                &&& run.tool_sequence == calls
                &&& run.approval_sequence == approvals + 1
                &&& request.id == run::numbered(run.run_id + "-approval-"@, approvals + 1)
            },
            _ => run.tool_sequence == calls && run.approval_sequence == approvals,
        }
    }
}

/// The calls of a run and the approvals that it asks for are named by their numbers,
/// each counted from one on, over all its turns.
pub proof fn law_calls_and_approvals_are_numbered(
    run: RunView,
    input: InputView,
    chosen: Option<TerminalView>,
)
    requires
        run.well_formed(),
        counts_calls(run),
    ensures
        counts_calls(run.step(input, chosen).0),
{
    lemma_requests(run.committed);
    if run.pending is Some {
        lemma_pushed(run.committed, run.pending->Some_0);
        lemma_requests(run.committed.push(run.pending->Some_0));
    }
}

/// A run that has not begun has requested nothing.
pub proof fn law_numbers_begin_with_the_run(run_id: Seq<char>, request: RequestView)
    ensures
        counts_calls(RunView::initial(run_id, request)),
        history_laws::counts_turns(RunView::initial(run_id, request)),
        names_its_turn(RunView::initial(run_id, request)),
{
}

/// An event that could not be recorded ends the run at once. Where it was the result of
/// a call, the end says which result is missing.
pub proof fn law_unrecorded_events_end_the_run(
    run: RunView,
    event: EventView,
    chosen: Option<TerminalView>,
)
    requires
        run.phase == RunPhase::Emit,
        run.pending == Some(event),
    ensures
        ({
            let (next, then_chosen) = run.step(InputView::Appended(false), chosen);
            &&& next.phase == RunPhase::Done
            &&& next.pending is None
            &&& next.committed == run.committed
            &&& next.messages == run.messages
            &&& then_chosen == chosen
            &&& event is ToolResult ==> next.end == Some(EndView::ToolResultIndeterminate(event))
            &&& !(event is ToolResult) ==> next.end == Some(EndView::EventSinkFailed)
        }),
{
}

/// A call is recorded firmly before it is looked at, and what it came to before anybody
/// is told. What the model says, and how turns begin, is not held up in that way.
pub proof fn law_calls_are_recorded_firmly(run: RunView, output: OutputView)
    requires
        run.well_formed(),
    ensures
        run.phase == RunPhase::ClassifyCall ==> runtime_model::is_durable(run.last()),
        run.phase == RunPhase::Execute ==> (run.step(
            InputView::Executed(output),
            None,
        ).0.pending matches Some(recorded) && runtime_model::is_durable(recorded)),
        run.phase == RunPhase::Checkpoint(CheckpointAt::ModelEvent) ==> (run.step(
            InputView::Control(FlowView::Continue),
            None,
        ).0.pending matches Some(recorded) && !runtime_model::is_durable(recorded)),
        run.phase == RunPhase::Checkpoint(CheckpointAt::Turn) ==> (run.step(
            InputView::Control(FlowView::Continue),
            None,
        ).0.pending matches Some(recorded) && !runtime_model::is_durable(recorded)),
{
}

/// Whether a run is about to record that it ends with a status.
pub open spec fn ends_with(run: RunView, status: TerminalView) -> bool {
    &&& run.phase == RunPhase::Emit
    &&& run.pending matches Some(EventView::RunFinished { run_id, status: recorded, .. })
    &&& run_id == run.run_id
    &&& recorded == status
}

/// A run that is asked to stop at a checkpoint ends there, and says why: no turn begins,
/// nothing more is heard, and no call is made.
pub proof fn law_stop_requests_end_the_run(run: RunView, at: CheckpointAt, reason: Seq<char>)
    requires
        run.phase == RunPhase::Checkpoint(at),
    ensures
        ({
            let (next, chosen) = run.step(InputView::Control(FlowView::Cancel { reason }), None);
            &&& ends_with(next, TerminalView::Cancelled { reason })
            &&& chosen == Some(TerminalView::Cancelled { reason })
            &&& next.committed == run.committed
        }),
        ({
            let (next, chosen) = run.step(InputView::Control(FlowView::Interrupt { reason }), None);
            &&& ends_with(next, TerminalView::Interrupted { reason })
            &&& chosen == Some(TerminalView::Interrupted { reason })
            &&& next.committed == run.committed
        }),
{
}

/// A run that was asked to stop while something was under way ends with what it was
/// asked: behind a checkpoint, behind a stream that was not opened or broke off, instead
/// of a decision, behind a result, and behind a complete turn.
pub proof fn law_stopped_runs_end(run: RunView, status: TerminalView, input: InputView)
    requires
        run.well_formed(),
        status is Interrupted || status is Cancelled,
        match (run.phase, input) {
            (RunPhase::Checkpoint(_), InputView::Control(_)) => true,
            (RunPhase::OpenStream, InputView::Opened(Err(_))) => true,
            (RunPhase::NextModelEvent, InputView::Model(None)) => true,
            (RunPhase::DecideApproval, InputView::Decided(_)) => true,
            (RunPhase::Emit, InputView::Appended(true)) => match run.pending {
                Some(EventView::ToolResult { .. }) => true,
                Some(EventView::ModelOutput { event, .. }) => event is Completed,
                Some(EventView::Error { error, .. }) => !error.recoverable,
                _ => false,
            },
            _ => false,
        },
    ensures
        ends_with(run.step(input, Some(status)).0, status),
        run.step(input, Some(status)).1 == Some(status),
        run.step(input, Some(status)).0.messages == run.messages,
{
}

/// What a run waits for behind each event that is recorded.
pub proof fn law_runs_go_on_behind_their_events(run: RunView, event: EventView)
    requires
        run.well_formed(),
        run.phase == RunPhase::Emit,
        run.pending == Some(event),
    ensures
        ({
            let (next, chosen) = run.step(InputView::Appended(true), None);
            &&& next.committed == run.committed.push(event)
            &&& next.run_id == run.run_id
            &&& event is RunStarted && run.turn < 128 ==> next.phase == RunPhase::Checkpoint(
                CheckpointAt::Turn,
            ) && next.turn == run.turn + 1
            &&& event is TurnStarted ==> next.phase == RunPhase::OpenStream && next.messages
                == run.messages && next.turn == run.turn
            &&& event is ToolCallRequested ==> next.phase == RunPhase::ClassifyCall && next.call
                == run.call
            &&& event matches EventView::ApprovalRequested { request, .. } ==> next.phase
                == RunPhase::DecideApproval && next.approval == Some(request) && next.call
                == run.call
            &&& event matches EventView::RunFinished { status, .. } ==> next.phase
                == RunPhase::Done && next.end == Some(EndView::Finished(status))
            &&& event matches EventView::ModelOutput { event: heard, .. } ==> {
                ||| heard is Completed
                ||| heard is Failed
                ||| heard is ToolCall
                ||| next.phase == RunPhase::NextModelEvent && next.calls == run.calls
                    && next.messages == run.messages
            }
        }),
{
}

/// A run that nobody asks to stop passes its checkpoints: a turn begins, the call is
/// made, and a stream that was opened is listened to.
pub proof fn law_runs_pass_their_checkpoints(run: RunView)
    requires
        run.well_formed(),
    ensures
        run.phase == RunPhase::Checkpoint(CheckpointAt::Turn) ==> {
            let next = run.step(InputView::Control(FlowView::Continue), None).0;
            &&& next.phase == RunPhase::Emit
            &&& next.pending matches Some(EventView::TurnStarted { .. })
        },
        run.phase == RunPhase::Checkpoint(CheckpointAt::Execution) ==> {
            let next = run.step(InputView::Control(FlowView::Continue), None).0;
            &&& next.phase == RunPhase::Execute
            &&& next.call == run.call
            &&& next.committed == run.committed
        },
        run.phase == RunPhase::OpenStream ==> {
            let next = run.step(InputView::Opened(Ok(())), None).0;
            &&& next.phase == RunPhase::NextModelEvent
            &&& next.committed == run.committed
            &&& next.text == run.text
        },
{
}

/// Whether a run is about to record an error that it cannot go on behind.
pub open spec fn fails_with(run: RunView, code: Seq<char>, message: Seq<char>) -> bool {
    &&& run.phase == RunPhase::Emit
    &&& run.pending matches Some(EventView::Error { error, .. })
    &&& error.code == code
    &&& error.message == message
    &&& !error.recoverable
}

/// Behind a result the next call of the turn is requested. Behind the last one the next
/// turn begins, or the run fails where it has taken its 128 turns. Behind a failure the
/// run does the same once the error is recorded.
pub proof fn law_results_lead_to_the_next_call(
    run: RunView,
    asked: Seq<MessageView>,
    event: EventView,
)
    requires
        run.well_formed(),
        history_laws::is_told(run, None, asked),
        history_laws::counts_turns(run),
        run.phase == RunPhase::Emit,
        run.pending == Some(event),
        match event {
            EventView::ToolResult { result, .. } => result.output is Success,
            EventView::Error { error, .. } => error.recoverable,
            _ => false,
        },
    ensures
        ({
            let next = run.step(InputView::Appended(true), None).0;
            let calls = history_laws::turn_calls(run.committed);
            let results = history_laws::turn_results(run.committed.push(event)) as int;
            if results < calls.len() {
                &&& next.phase == RunPhase::Emit
                &&& next.pending matches Some(
                    EventView::ToolCallRequested { model_tool_call_id, call, .. },
                )
                &&& model_tool_call_id == calls[results].id
                &&& call.tool_name == calls[results].name
                &&& call.arguments == calls[results].arguments
            } else if history_laws::turns(run.committed) < 128 {
                next.phase == RunPhase::Checkpoint(CheckpointAt::Turn)
            } else {
                fails_with(
                    next,
                    "turn_limit_reached"@,
                    "Agent Run exceeded the 128-turn safety limit"@,
                )
            }
        }),
{
    assert(run.committed.push(event).drop_last() =~= run.committed);
    assert(run.committed.push(event).last() == event);
}

/// What a run says where the stream of the model breaks off, and where the model gives
/// two calls of a turn the same name.
pub proof fn law_broken_streams_are_explained(
    run: RunView,
    asked: Seq<MessageView>,
    call: ModelCallView,
)
    requires
        run.well_formed(),
        history_laws::is_told(run, None, asked),
    ensures
        run.phase == RunPhase::NextModelEvent ==> fails_with(
            run.step(InputView::Model(None), None).0,
            "model_stream_incomplete"@,
            "model stream ended without a completed event"@,
        ),
        run.phase == RunPhase::Emit && (run.pending matches Some(
            EventView::ModelOutput {
                event: StreamEventView::ToolCall { call: heard, .. },
                ..
            },
        ) && heard == call) ==> {
            let next = run.step(InputView::Appended(true), None).0;
            let calls = history_laws::turn_calls(run.committed);
            if exists|i: int| 0 <= i < calls.len() && (#[trigger] calls[i]).id == call.id {
                fails_with(
                    next,
                    "duplicate_model_tool_call_id"@,
                    "model emitted duplicate tool call id '"@ + call.id + "' in one turn"@,
                )
            } else {
                next.phase == RunPhase::NextModelEvent && next.calls == calls.push(call)
            }
        },
{
}

} // verus!

//! How the conversation of a run with its model grows.

use crate::model::{MessageView, ModelCallView, RequestView};
use crate::run::{EventView, TerminalView};
use crate::runtime::{CheckpointAt, InputView, RunPhase};
use crate::runtime_model;
use crate::runtime_model::RunView;
use crate::tool::OutputView;
use vstd::prelude::*;

verus! {

/// Whether a message tells the model what one of its calls came to.
pub open spec fn answers(message: MessageView, call: ModelCallView) -> bool {
    message matches MessageView::Tool { name, tool_call_id, .. } && name == call.name
        && tool_call_id == call.id
}

/// Whether the conversation has gone on from `asked` by what the model said in
/// this turn and by the results of its calls so far, in their order.
pub open spec fn has_gone_on(run: RunView, asked: Seq<MessageView>) -> bool {
    let count = asked.len() as int;
    &&& run.turn >= 1
    &&& run.messages.len() == count + 1 + run.answered
    &&& run.messages.take(count) == asked
    &&& run.messages[count] == (MessageView::Assistant {
        text: if run.text.len() == 0 {
            None
        } else {
            Some(run.text)
        },
        tool_calls: run.calls,
    })
    &&& run.answered <= run.calls.len()
    &&& forall|i: int|
        0 <= i < run.answered ==> answers(run.messages[count + 1 + i], #[trigger] run.calls[i])
}

/// Whether the conversation stands between two turns: nothing was said before
/// the first; before any other the model has spoken, and knows what each of its
/// calls came to.
pub open spec fn is_between_turns(run: RunView, asked: Seq<MessageView>) -> bool {
    if run.turn <= 1 {
        run.turn == 1 && run.messages == asked
    } else {
        has_gone_on(run, asked) && run.answered == run.calls.len()
    }
}

/// Whether the model was last asked with `asked`, or is to be asked first with
/// it, and the conversation has gone on from there.
pub open spec fn was_asked(run: RunView, asked: Seq<MessageView>) -> bool {
    match run.phase {
        RunPhase::OpenStream => run.turn >= 1 && run.messages == asked,
        RunPhase::NextModelEvent => run.turn >= 1 && run.messages == asked,
        RunPhase::Checkpoint(CheckpointAt::ModelEvent) => run.turn >= 1 && run.messages == asked,
        RunPhase::Checkpoint(CheckpointAt::Turn) => is_between_turns(run, asked),
        RunPhase::Done => true,
        RunPhase::Emit => match run.pending {
            Some(EventView::RunStarted { .. }) => run.turn == 0 && run.messages == asked,
            Some(EventView::TurnStarted { .. }) => is_between_turns(run, asked),
            Some(EventView::ModelOutput { .. }) => run.turn >= 1 && run.messages == asked,
            Some(EventView::RunFinished { .. }) => true,
            Some(EventView::Error { error, .. }) => error.recoverable ==> has_gone_on(run, asked),
            _ => has_gone_on(run, asked),
        },
        _ => has_gone_on(run, asked),
    }
}

proof fn lemma_next_call(run: RunView, asked: Seq<MessageView>)
    requires
        has_gone_on(run, asked),
    ensures
        was_asked(run.next_call(), asked),
{
    assert(has_gone_on(run.next_call(), asked) || run.answered == run.calls.len());
}

proof fn lemma_collected(run: RunView, asked: Seq<MessageView>, chosen: Option<TerminalView>)
    requires
        run.turn >= 1,
        run.messages == asked,
    ensures
        was_asked(run.collected(chosen).0, asked),
{
    if run.calls.len() > 0 {
        let told = RunView {
            messages: run.messages.push(
                MessageView::Assistant {
                    text: if run.text.len() == 0 {
                        None
                    } else {
                        Some(run.text)
                    },
                    tool_calls: run.calls,
                },
            ),
            answered: 0,
            ..run
        };
        assert(told.messages.take(asked.len() as int) =~= asked);
        lemma_next_call(told, asked);
    }
}

proof fn lemma_answered(run: RunView, asked: Seq<MessageView>, output: OutputView)
    requires
        has_gone_on(run, asked),
        run.answered < run.calls.len(),
    ensures
        has_gone_on(run.answer(output), asked),
{
    let next = run.answer(output);
    let count = asked.len() as int;
    assert(next.messages.take(count) =~= asked);
    assert forall|i: int| 0 <= i < next.answered implies answers(
        next.messages[count + 1 + i],
        #[trigger] next.calls[i],
    ) by {
        if i < run.answered {
            assert(next.messages[count + 1 + i] == run.messages[count + 1 + i]);
        }
    }
}

/// A run first asks the model what it was asked to.
pub proof fn law_the_first_request_is_the_given_one(run_id: Seq<char>, request: RequestView)
    ensures
        RunView::initial(run_id, request).request() == request,
        was_asked(RunView::initial(run_id, request), request.messages),
{
}

/// Every request names the model, the tools and the metadata that the run was
/// given. From one request to the next the conversation grows by what the model
/// said, and then by one result for each of its calls, in their order and under
/// the names that the model gave them.
pub proof fn law_requests_grow_by_a_turn(
    run: RunView,
    input: InputView,
    chosen: Option<TerminalView>,
    asked: Seq<MessageView>,
)
    requires
        run.well_formed(),
        was_asked(run, asked),
    ensures
        ({
            let next = run.step(input, chosen).0;
            &&& next.model == run.model
            &&& next.tools == run.tools
            &&& next.metadata == run.metadata
            &&& if next.phase == RunPhase::OpenStream && run.phase == RunPhase::Emit {
                &&& is_between_turns(run, asked)
                &&& next.messages == run.messages
                &&& was_asked(next, next.messages)
            } else {
                was_asked(next, asked)
            }
        }),
{
    match (run.phase, input) {
        (RunPhase::Emit, InputView::Appended(true)) => {
            let event = run.pending->Some_0;
            let recorded = RunView {
                pending: None,
                sequence: runtime_model::bumped(run.sequence),
                committed: run.committed.push(event),
                ..run
            };
            match event {
                EventView::ModelOutput { .. } => {
                    lemma_collected(recorded, asked, chosen);
                },
                EventView::ToolResult { result, .. } => {
                    assert(has_gone_on(recorded, asked));
                    lemma_answered(recorded, asked, result.output);
                    lemma_next_call(recorded.answer(result.output), asked);
                },
                EventView::Error { error, .. } => {
                    if error.recoverable {
                        assert(has_gone_on(recorded, asked));
                        lemma_next_call(recorded, asked);
                    }
                },
                _ => {},
            }
        },
        _ => {},
    }
}

} // verus!

//! What a run needs from its surroundings: a log that takes its events, and a
//! control that may stop it and decides about approvals.

use crate::agent_run::AgentRun;
use crate::cancellation::Cancellation;
use crate::run::{AgentEvent, ApprovalDecision, ApprovalRequest, DecisionView, EventSequence};
use crate::runtime::{InputView, RunInput, RunPhase};
use crate::runtime_model;
use crate::stop::{FlowView, RunControlFlow, RunStopToken};
use vstd::prelude::*;

verus! {

/// How firmly an event must be recorded before the run goes on.
#[derive(Clone, Copy, Debug, PartialEq, Eq, Structural)]
pub enum EventDurability {
    /// The event is in the log.
    Appended,
    /// The event is in the log, and the log is stable.
    Durable,
}

/// A log that takes the events of a run.
pub trait AgentEventSink {
    type Error;

    /// Appends an event. After an error the event may or may not be recorded.
    fn append(&mut self, sequence: EventSequence, event: &AgentEvent) -> Result<(), Self::Error>;

    /// Appends an event and returns only when it is stable. After an error the
    /// event may or may not be recorded.
    fn append_durable(&mut self, sequence: EventSequence, event: &AgentEvent) -> Result<
        (),
        Self::Error,
    >;
}

/// A control that may stop a run and decides about approvals.
pub trait RunControl {
    /// Asked between the steps of a run.
    fn checkpoint(&mut self) -> RunControlFlow;

    /// Waits for a decision, and gives up when `cancellation` asks it to.
    fn decide_approval(
        &mut self,
        request: &ApprovalRequest,
        cancellation: &mut Cancellation,
    ) -> (decision: ApprovalDecision)
        default_ensures
            decision@ == (DecisionView::Deny {
                reason: "no approval handler accepted the tool call"@,
            }),
    {
        ApprovalDecision::Deny { reason: "no approval handler accepted the tool call".to_owned() }
    }
}

/// The control of a run that nobody watches: it never stops the run, and
/// approves nothing.
pub struct Unattended;

impl RunControl for Unattended {
    fn checkpoint(&mut self) -> (flow: RunControlFlow)
        ensures
            flow@ == FlowView::Continue,
    {
        RunControlFlow::Continue
    }
}

/// How firmly the pending event of a run must be recorded.
pub fn pending_durability(run: &AgentRun) -> (durability: EventDurability)
    ensures
        durability == EventDurability::Durable <==> (run@.pending is Some
            && runtime_model::is_durable(run@.pending->Some_0)),
{
    if run.pending_is_durable() {
        EventDurability::Durable
    } else {
        EventDurability::Appended
    }
}

/// Appends the pending event of a run to a log, as firmly as it must be, and
/// moves the run on by what came of that.
pub fn append_pending<S: AgentEventSink>(
    run: &mut AgentRun,
    sink: &mut S,
    token: &mut RunStopToken,
) -> (result: Result<(), S::Error>)
    requires
        old(run)@.well_formed(),
        old(run)@.phase == RunPhase::Emit,
    ensures
        (final(run)@, final(token)@) == old(run)@.step(
            InputView::Appended(result is Ok),
            old(token)@,
        ),
        final(run)@.well_formed(),
{
    let sequence = run.sequence();
    let durability = pending_durability(run);
    let result = match run.pending_event() {
        Some(event) => match durability {
            EventDurability::Durable => sink.append_durable(sequence, event),
            EventDurability::Appended => sink.append(sequence, event),
        },
        None => vstd::pervasive::unreached(),
    };
    run.advance(RunInput::Appended(result.is_ok()), token);
    result
}

/// Asks the control at a checkpoint of a run, and moves the run on by what it
/// says.
pub fn pass_checkpoint<C: RunControl>(
    run: &mut AgentRun,
    control: &mut C,
    token: &mut RunStopToken,
)
    requires
        old(run)@.well_formed(),
        old(run)@.phase is Checkpoint,
    ensures
        exists|flow: FlowView|
            (final(run)@, final(token)@) == #[trigger] old(run)@.step(
                InputView::Control(flow),
                old(token)@,
            ),
        final(run)@.well_formed(),
{
    let flow = control.checkpoint();
    let ghost said = flow@;
    run.advance(RunInput::Control(flow), token);
    assert((run@, token@) == old(run)@.step(InputView::Control(said), old(token)@));
}

} // verus!

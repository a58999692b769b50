//! Asking a run to stop. The first status that is chosen for a run is the one
//! that it ends with.

use crate::run::{TerminalRunStatus, TerminalView};
use vstd::prelude::*;

verus! {

/// What the control of a run says at a checkpoint.
#[derive(Clone, Debug, PartialEq, Eq)]
pub enum RunControlFlow {
    Continue,
    Interrupt { reason: String },
    Cancel { reason: String },
}

/// The mathematical value of a [`RunControlFlow`].
pub enum FlowView {
    Continue,
    Interrupt { reason: Seq<char> },
    Cancel { reason: Seq<char> },
}

impl View for RunControlFlow {
    type V = FlowView;

    open spec fn view(&self) -> FlowView {
        match *self {
            RunControlFlow::Continue => FlowView::Continue,
            RunControlFlow::Interrupt { reason } => FlowView::Interrupt { reason: reason@ },
            RunControlFlow::Cancel { reason } => FlowView::Cancel { reason: reason@ },
        }
    }
}

/// How a run ends, once that is chosen.
#[derive(Debug)]
pub struct RunStopToken {
    terminal_status: Option<TerminalRunStatus>,
}

/// The value of an optional status.
pub open spec fn optional_status(status: Option<TerminalRunStatus>) -> Option<TerminalView> {
    match status {
        Some(chosen) => Some(chosen@),
        None => None,
    }
}

/// The status behind a proposal: the first one stays.
pub open spec fn resolved(chosen: Option<TerminalView>, proposed: TerminalView) -> TerminalView {
    match chosen {
        Some(first) => first,
        None => proposed,
    }
}

/// The status of a run that was asked to stop.
pub open spec fn stop_status(chosen: Option<TerminalView>) -> Option<TerminalView> {
    match chosen {
        Some(status) => if status.is_stop() {
            Some(status)
        } else {
            None
        },
        None => None,
    }
}

/// What is chosen behind a checkpoint.
pub open spec fn after_checkpoint(chosen: Option<TerminalView>, flow: FlowView) -> Option<
    TerminalView,
> {
    match flow {
        FlowView::Continue => chosen,
        FlowView::Interrupt { reason } => Some(
            resolved(chosen, TerminalView::Interrupted { reason }),
        ),
        FlowView::Cancel { reason } => Some(resolved(chosen, TerminalView::Cancelled { reason })),
    }
}

impl View for RunStopToken {
    type V = Option<TerminalView>;

    closed spec fn view(&self) -> Option<TerminalView> {
        optional_status(self.terminal_status)
    }
}

impl Default for RunStopToken {
    /// A run of which nothing is chosen yet.
    fn default() -> (token: RunStopToken)
        ensures
            token@ is None,
    {
        RunStopToken { terminal_status: None }
    }
}

impl RunStopToken {
    /// Asks the run to pause.
    pub fn interrupt(&mut self, reason: String)
        ensures
            final(self)@ == Some(
                resolved(old(self)@, TerminalView::Interrupted { reason: reason@ }),
            ),
    {
        let _ = self.resolve_terminal(TerminalRunStatus::Interrupted { reason });
    }

    /// Asks the run to give up.
    pub fn cancel(&mut self, reason: String)
        ensures
            final(self)@ == Some(resolved(old(self)@, TerminalView::Cancelled { reason: reason@ })),
    {
        let _ = self.resolve_terminal(TerminalRunStatus::Cancelled { reason });
    }

    /// Whether the run was asked to stop.
    pub fn is_requested(&self) -> (result: bool)
        ensures
            result == (stop_status(self@) is Some),
    {
        match &self.terminal_status {
            Some(status) => status.is_stop(),
            None => false,
        }
    }

    /// The first status that was chosen, for whatever reason.
    pub fn terminal_status(&self) -> (status: Option<TerminalRunStatus>)
        ensures
            optional_status(status) == self@,
    {
        match &self.terminal_status {
            Some(status) => Some(status.copy()),
            None => None,
        }
    }

    /// Chooses a status where none is chosen yet, and gives the chosen one.
    pub fn resolve_terminal(&mut self, proposed: TerminalRunStatus) -> (status: TerminalRunStatus)
        ensures
            status@ == resolved(old(self)@, proposed@),
            final(self)@ == Some(status@),
    {
        let status = match &self.terminal_status {
            Some(first) => first.copy(),
            None => proposed,
        };
        self.terminal_status = Some(status.copy());
        status
    }

    /// The chosen status, where the run was asked to stop.
    pub fn status(&self) -> (status: Option<TerminalRunStatus>)
        ensures
            optional_status(status) == stop_status(self@),
    {
        if self.is_requested() {
            self.terminal_status()
        } else {
            None
        }
    }

    /// The chosen status behind a checkpoint, where the run was asked to stop.
    pub fn stopped_status(&mut self, flow: RunControlFlow) -> (status: Option<TerminalRunStatus>)
        ensures
            final(self)@ == after_checkpoint(old(self)@, flow@),
            optional_status(status) == stop_status(final(self)@),
    {
        match flow {
            RunControlFlow::Continue => {},
            RunControlFlow::Interrupt { reason } => {
                self.interrupt(reason);
            },
            RunControlFlow::Cancel { reason } => {
                self.cancel(reason);
            },
        }
        self.status()
    }
}

/// What is chosen behind the first `count` of some requests.
pub open spec fn after_requests(
    chosen: Option<TerminalView>,
    requests: Seq<FlowView>,
    count: int,
) -> Option<TerminalView>
    decreases count,
{
    if count <= 0 {
        chosen
    } else {
        after_checkpoint(after_requests(chosen, requests, count - 1), requests[count - 1])
    }
}

/// The status that a request asks for.
pub open spec fn requested_status(request: FlowView) -> Option<TerminalView> {
    after_checkpoint(None, request)
}

/// Once a status is chosen for a run, no later request or proposal changes it.
pub proof fn law_the_first_status_wins(
    first: TerminalView,
    flow: FlowView,
    proposed: TerminalView,
)
    ensures
        after_checkpoint(Some(first), flow) == Some(first),
        resolved(Some(first), proposed) == first,
{
}

proof fn lemma_chosen_stays(chosen: TerminalView, requests: Seq<FlowView>, from: int, count: int)
    requires
        0 <= from <= count <= requests.len(),
        after_requests(None, requests, from) == Some(chosen),
    ensures
        after_requests(None, requests, count) == Some(chosen),
    decreases count - from,
{
    if from < count {
        lemma_chosen_stays(chosen, requests, from, count - 1);
    }
}

proof fn lemma_nothing_chosen(requests: Seq<FlowView>, count: int)
    requires
        0 <= count <= requests.len(),
        forall|at: int| 0 <= at < count ==> (#[trigger] requests[at]) is Continue,
    ensures
        after_requests(None, requests, count) is None,
    decreases count,
{
    if count > 0 {
        lemma_nothing_chosen(requests, count - 1);
    }
}

/// Of any number of requests, one after another, the first that asks for a stop
/// decides; without one, nothing is chosen.
pub proof fn law_the_first_request_decides(requests: Seq<FlowView>, first: int)
    requires
        0 <= first <= requests.len(),
        forall|at: int| 0 <= at < first ==> (#[trigger] requests[at]) is Continue,
        first < requests.len() ==> !(requests[first] is Continue),
    ensures
        after_requests(None, requests, requests.len() as int) == if first < requests.len() {
            requested_status(requests[first])
        } else {
            None
        },
{
    lemma_nothing_chosen(requests, first);
    if first < requests.len() {
        lemma_chosen_stays(
            requested_status(requests[first])->Some_0,
            requests,
            first + 1,
            requests.len() as int,
        );
    }
}

} // verus!

//! Reference to a flow that was started.

use vstd::prelude::*;

use super::error::RuntimeError;
use super::oneshot::JoinState;
use super::process::{FlowId, FlowOutcome, OutcomeView};

verus! {

/// What the host keeps of a flow: enough to name it and to learn its outcome.
/// Dropping it does not affect the flow.
#[derive(Debug)]
pub struct FlowHandle {
    id: FlowId,
}

pub type ProcessHandle = FlowHandle;

/// The outcome that a joiner sees: a broken handover counts as a failure.
pub open spec fn join_outcome(received: Result<FlowOutcome, RuntimeError>) -> OutcomeView {
    match received {
        Ok(outcome) => outcome@,
        Err(e) => OutcomeView::Failed(e.spec_text()),
    }
}

/// The outcome that a poll sees, if there is one yet: a broken handover counts
/// as a failure.
pub open spec fn poll_outcome(received: Result<JoinState<FlowOutcome>, RuntimeError>) -> Option<
    OutcomeView,
> {
    match received {
        Ok(JoinState::Ready(outcome)) => Some(outcome@),
        Ok(JoinState::Pending) => None,
        Err(e) => Some(OutcomeView::Failed(e.spec_text())),
    }
}

impl FlowHandle {
    pub closed spec fn flow(&self) -> FlowId {
        self.id
    }

    pub fn new(id: FlowId) -> (h: FlowHandle)
        ensures
            h.flow() == id,
    {
        FlowHandle { id }
    }

    pub fn id(&self) -> (id: FlowId)
        ensures
            id == self.flow(),
    {
        self.id
    }

    /// The outcome, from what the handover gave.
    pub fn join(self, received: Result<FlowOutcome, RuntimeError>) -> (o: FlowOutcome)
        ensures
            o@ == join_outcome(received),
    {
        match received {
            Ok(outcome) => outcome,
            Err(e) => FlowOutcome::Failed(e.to_text()),
        }
    }

    /// The outcome if it is there, from what a look or a wait with a limit
    /// gave. The handle stays, so that the wait can be repeated.
    pub fn poll(&self, received: Result<JoinState<FlowOutcome>, RuntimeError>) -> (r: Option<
        FlowOutcome,
    >)
        ensures
            match r {
                Some(o) => poll_outcome(received) == Some(o@),
                None => poll_outcome(received) is None,
            },
    {
        match received {
            Ok(JoinState::Ready(outcome)) => Some(outcome),
            Ok(JoinState::Pending) => None,
            Err(e) => Some(FlowOutcome::Failed(e.to_text())),
        }
    }
}

/// The outcome that was handed over is the one that a join and a poll see, a
/// handover that broke is a failure with the reason, and a poll before the end
/// sees nothing.
pub proof fn outcomes_are_handed_on(outcome: FlowOutcome, e: RuntimeError)
    ensures
        join_outcome(Ok(outcome)) == outcome@,
        join_outcome(Err(e)) == OutcomeView::Failed(e.spec_text()),
        poll_outcome(Ok(JoinState::Ready(outcome))) == Some(outcome@),
        poll_outcome(Ok(JoinState::Pending)) is None,
        poll_outcome(Err(e)) == Some(OutcomeView::Failed(e.spec_text())),
{
}

} // verus!

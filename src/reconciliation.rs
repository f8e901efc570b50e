use vstd::prelude::*;

use crate::agent_desired_state::AgentDesiredState;
use crate::slot_aggregated_status_snapshot::SlotAggregatedStatusSnapshot;

verus! {

/// A correction the balancer sends to an agent whose report diverges from
/// what is wanted of it.
#[derive(Clone, Copy, Debug, PartialEq, Eq, Structural)]
pub enum ReconciliationCommand {
    /// The agent is draining and idle: it should shut down.
    Stop,
    /// The agent reports more busy slots than it has: stop giving it work.
    Drain,
}

impl ReconciliationCommand {
    /// The state that the command asks the agent to move to.
    pub open spec fn target_state_spec(self) -> AgentDesiredState {
        match self {
            ReconciliationCommand::Stop => AgentDesiredState::Stopped,
            ReconciliationCommand::Drain => AgentDesiredState::Draining,
        }
    }

    pub fn target_state(&self) -> (r: AgentDesiredState)
        ensures
            r == self.target_state_spec(),
    {
        match self {
            ReconciliationCommand::Stop => AgentDesiredState::Stopped,
            ReconciliationCommand::Drain => AgentDesiredState::Draining,
        }
    }
}

/// The reconciliation rule: a draining agent with no busy slot is stopped;
/// an active agent reporting more busy slots than its capacity is drained;
/// nothing else changes automatically.
pub open spec fn reconcile_spec(
    snapshot: SlotAggregatedStatusSnapshot,
    desired: AgentDesiredState,
) -> Option<ReconciliationCommand> {
    match desired {
        AgentDesiredState::Draining => if snapshot.busy_slots == 0 {
            Some(ReconciliationCommand::Stop)
        } else {
            None
        },
        AgentDesiredState::Active => if snapshot.busy_slots > snapshot.total_slots {
            Some(ReconciliationCommand::Drain)
        } else {
            None
        },
        AgentDesiredState::Stopped => None,
    }
}

/// Compares a fresh report with the desired state and returns the command
/// that corrects a divergence, if any.
pub fn reconcile(
    snapshot: &SlotAggregatedStatusSnapshot,
    desired: AgentDesiredState,
) -> (r: Option<ReconciliationCommand>)
    ensures
        r == reconcile_spec(*snapshot, desired),
{
    match desired {
        AgentDesiredState::Draining => {
            if snapshot.is_idle() {
                Some(ReconciliationCommand::Stop)
            } else {
                None
            }
        },
        AgentDesiredState::Active => {
            if snapshot.is_consistent() {
                None
            } else {
                Some(ReconciliationCommand::Drain)
            }
        },
        AgentDesiredState::Stopped => None,
    }
}

} // verus!

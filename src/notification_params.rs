use vstd::prelude::*;

use crate::agent_desired_state::AgentDesiredState;
use crate::slot_aggregated_status_snapshot::SlotAggregatedStatusSnapshot;

verus! {

/// Balancer to agent: the state the agent should move to.
#[derive(Clone, Copy, Debug, PartialEq, Eq, Structural)]
pub struct SetStateParams {
    pub desired_state: AgentDesiredState,
}

/// Agent to balancer, first message of a connection: who it is and how it stands.
#[derive(Clone, Debug, PartialEq, Eq)]
pub struct RegisterAgentParams {
    pub name: Option<String>,
    pub slot_aggregated_status_snapshot: SlotAggregatedStatusSnapshot,
}

/// Agent to balancer: a fresh report of its slots.
#[derive(Clone, Copy, Debug, PartialEq, Eq, Structural)]
pub struct UpdateAgentStatusParams {
    pub slot_aggregated_status_snapshot: SlotAggregatedStatusSnapshot,
}

/// Where an agent's model comes from on the Hugging Face hub.
#[derive(Clone, Debug, PartialEq, Eq)]
pub struct HuggingFaceModelReference {
    pub filename: String,
    pub repo_id: String,
    pub revision: String,
}

} // verus!

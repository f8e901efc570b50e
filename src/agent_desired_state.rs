use vstd::prelude::*;

verus! {

/// The lifecycle state the balancer wants an agent to be in.
#[derive(Clone, Copy, Debug, PartialEq, Eq, Structural)]
pub enum AgentDesiredState {
    /// Accept new work.
    Active,
    /// Finish in-flight work, accept no new work.
    Draining,
    /// Shut down.
    Stopped,
}

} // verus!

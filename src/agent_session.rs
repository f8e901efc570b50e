use vstd::prelude::*;

use crate::agent_controller_pool::{
    name_view, register_spec, set_desired_state_spec, update_status_spec, AgentControllerPool,
    PoolError,
};
use crate::agent_desired_state::AgentDesiredState;
use crate::notification_params::{RegisterAgentParams, SetStateParams, UpdateAgentStatusParams};
use crate::persisted_state_store::PersistedStateStore;
use crate::reconciliation::{reconcile_spec, ReconciliationCommand};

verus! {

/// Where a connection stands in the agent protocol.
#[derive(Clone, Copy, Debug, PartialEq, Eq, Structural)]
pub enum SessionState {
    /// Accepted, no identity yet.
    Connecting,
    /// Registered; the agent is wanted to take work.
    Active,
    /// Registered; the agent is wanted to finish its work and take no more.
    Draining,
    /// Over; nothing more is accepted.
    Closed,
}

/// Why a session refused a message or a command.
#[derive(Clone, Copy, Debug, PartialEq, Eq, Structural)]
pub enum SessionError {
    /// The agent broke the protocol; the session is closed.
    ProtocolViolation,
    /// The registry holds no record of this session's agent.
    NotFound,
}

/// The desired state an agent starts with: what the store holds for it, or
/// `Active` for an agent never assigned one.
pub open spec fn initial_desired_state(store: Map<Seq<char>, AgentDesiredState>, id: Seq<char>) -> AgentDesiredState {
    if store.contains_key(id) {
        store[id]
    } else {
        AgentDesiredState::Active
    }
}

/// The local state that follows a desired state.
pub open spec fn state_for(desired: AgentDesiredState) -> SessionState {
    if desired == AgentDesiredState::Draining {
        SessionState::Draining
    } else {
        SessionState::Active
    }
}

pub open spec fn is_registered(state: SessionState) -> bool {
    state == SessionState::Active || state == SessionState::Draining
}

/// One persistent connection to one agent: the protocol's state machine.
///
/// The session never touches a record itself; it asks the pool.
pub struct AgentSession {
    state: SessionState,
    agent_id: Option<String>,
}

impl AgentSession {
    pub closed spec fn state_spec(&self) -> SessionState {
        self.state
    }

    /// The id of the agent, once registered.
    pub closed spec fn agent_id_spec(&self) -> Option<Seq<char>> {
        name_view(self.agent_id)
    }

    pub open spec fn wf(&self) -> bool {
        is_registered(self.state_spec()) <==> self.agent_id_spec() is Some
    }

    pub fn new() -> (r: AgentSession)
        ensures
            r.wf(),
            r.state_spec() == SessionState::Connecting,
            r.agent_id_spec() is None,
    {
        AgentSession { state: SessionState::Connecting, agent_id: None }
    }

    pub fn state(&self) -> (r: SessionState)
        ensures
            r == self.state_spec(),
    {
        self.state
    }

    pub fn agent_id(&self) -> (r: Option<&String>)
        ensures
            name_view(
                match r {
                    Some(s) => Some(*s),
                    None => None,
                },
            ) == self.agent_id_spec(),
    {
        match &self.agent_id {
            Some(id) => Some(id),
            None => None,
        }
    }

    /// Ends the session and removes its agent's record, if it had one.
    pub fn close(&mut self, pool: &mut AgentControllerPool)
        requires
            old(self).wf(),
            old(pool).wf(),
        ensures
            final(self).wf(),
            final(pool).wf(),
            final(self).state_spec() == SessionState::Closed,
            final(self).agent_id_spec() is None,
            final(pool).view() == match old(self).agent_id_spec() {
                Some(id) => old(pool).view().remove(id),
                None => old(pool).view(),
            },
    {
        match &self.agent_id {
            Some(id) => pool.remove(id),
            None => {},
        }
        self.agent_id = None;
        self.state = SessionState::Closed;
    }

    /// The connection broke the protocol (a malformed message, for one): the
    /// session is closed and the error returned.
    pub fn reject(&mut self, pool: &mut AgentControllerPool) -> (r: SessionError)
        requires
            old(self).wf(),
            old(pool).wf(),
        ensures
            r == SessionError::ProtocolViolation,
            final(self).wf(),
            final(pool).wf(),
            final(self).state_spec() == SessionState::Closed,
            final(self).agent_id_spec() is None,
            final(pool).view() == match old(self).agent_id_spec() {
                Some(id) => old(pool).view().remove(id),
                None => old(pool).view(),
            },
    {
        self.close(pool);
        SessionError::ProtocolViolation
    }

    /// Handles the agent's registration: takes the desired state from the
    /// store (`Active` when it holds none) and puts the record in the pool.
    /// A second registration, or one on a closed session, is a protocol
    /// violation.
    pub fn register(
        &mut self,
        pool: &mut AgentControllerPool,
        store: &PersistedStateStore,
        agent_id: String,
        params: RegisterAgentParams,
    ) -> (r: Result<AgentDesiredState, SessionError>)
        requires
            old(self).wf(),
            old(pool).wf(),
            store.wf(),
        ensures
            final(self).wf(),
            final(pool).wf(),
            old(self).state_spec() == SessionState::Connecting ==> {
                let d = initial_desired_state(store.view(), agent_id@);
                &&& r == Ok::<AgentDesiredState, SessionError>(d)
                &&& final(pool).view() == register_spec(
                    old(pool).view(),
                    agent_id@,
                    name_view(params.name),
                    params.slot_aggregated_status_snapshot,
                    d,
                )
                &&& final(self).state_spec() == state_for(d)
                &&& final(self).agent_id_spec() == Some(agent_id@)
            },
            old(self).state_spec() != SessionState::Connecting ==> {
                &&& r == Err::<AgentDesiredState, SessionError>(SessionError::ProtocolViolation)
                &&& final(self).state_spec() == SessionState::Closed
                &&& final(pool).view() == match old(self).agent_id_spec() {
                    Some(id) => old(pool).view().remove(id),
                    None => old(pool).view(),
                }
            },
    {
        if self.state != SessionState::Connecting {
            return Err(self.reject(pool));
        }
        let desired = match store.get(&agent_id) {
            Some(d) => d,
            None => AgentDesiredState::Active,
        };
        pool.register(agent_id.clone(), params.name, params.slot_aggregated_status_snapshot, desired);
        self.agent_id = Some(agent_id);
        self.state = if desired == AgentDesiredState::Draining {
            SessionState::Draining
        } else {
            SessionState::Active
        };
        Ok(desired)
    }

    /// Handles a status report: the pool replaces the agent's snapshot, and
    /// the correction that reconciliation calls for, if any, is returned to
    /// be sent. A report before registration is a protocol violation.
    pub fn update_status(&mut self, pool: &mut AgentControllerPool, params: UpdateAgentStatusParams) -> (r:
        Result<Option<ReconciliationCommand>, SessionError>)
        requires
            old(self).wf(),
            old(pool).wf(),
        ensures
            final(self).wf(),
            final(pool).wf(),
            match old(self).agent_id_spec() {
                Some(id) => {
                    &&& final(self).state_spec() == old(self).state_spec()
                    &&& final(self).agent_id_spec() == old(self).agent_id_spec()
                    &&& final(pool).view() == update_status_spec(
                        old(pool).view(),
                        id,
                        params.slot_aggregated_status_snapshot,
                    )
                    &&& r == if old(pool).view().contains_key(id) {
                        Ok::<Option<ReconciliationCommand>, SessionError>(
                            reconcile_spec(
                                params.slot_aggregated_status_snapshot,
                                old(pool).view()[id].desired_state,
                            ),
                        )
                    } else {
                        Err(SessionError::NotFound)
                    }
                },
                None => {
                    &&& r == Err::<Option<ReconciliationCommand>, SessionError>(
                        SessionError::ProtocolViolation,
                    )
                    &&& final(self).state_spec() == SessionState::Closed
                    &&& final(pool).view() == old(pool).view()
                },
            },
    {
        match &self.agent_id {
            Some(id) => match pool.update_status(id, params.slot_aggregated_status_snapshot) {
                Ok(cmd) => Ok(cmd),
                Err(PoolError::NotFound) => Err(SessionError::NotFound),
            },
            None => Err(self.reject(pool)),
        }
    }

    /// Handles an administrative change of desired state: the store records
    /// it first, then the pool, and the command to send to the agent is
    /// returned. The local state follows.
    pub fn set_state(
        &mut self,
        pool: &mut AgentControllerPool,
        store: &mut PersistedStateStore,
        desired_state: AgentDesiredState,
    ) -> (r: Result<SetStateParams, SessionError>)
        requires
            old(self).wf(),
            old(pool).wf(),
            old(store).wf(),
        ensures
            final(self).wf(),
            final(pool).wf(),
            final(store).wf(),
            final(self).agent_id_spec() == old(self).agent_id_spec(),
            match old(self).agent_id_spec() {
                Some(id) => if old(pool).view().contains_key(id) {
                    &&& r == Ok::<SetStateParams, SessionError>(SetStateParams { desired_state })
                    &&& final(store).view() == old(store).view().insert(id, desired_state)
                    &&& final(pool).view() == set_desired_state_spec(old(pool).view(), id, desired_state)
                    &&& final(self).state_spec() == state_for(desired_state)
                } else {
                    &&& r == Err::<SetStateParams, SessionError>(SessionError::NotFound)
                    &&& final(store).view() == old(store).view()
                    &&& final(pool).view() == old(pool).view()
                    &&& final(self).state_spec() == old(self).state_spec()
                },
                None => {
                    &&& r == Err::<SetStateParams, SessionError>(SessionError::NotFound)
                    &&& final(store).view() == old(store).view()
                    &&& final(pool).view() == old(pool).view()
                    &&& final(self).state_spec() == old(self).state_spec()
                },
            },
    {
        match &self.agent_id {
            Some(id) => {
                if pool.desired_state_of(id).is_none() {
                    return Err(SessionError::NotFound);
                }
                store.put(id, desired_state);
                let _ = pool.set_desired_state(id, desired_state);
                self.state = if desired_state == AgentDesiredState::Draining {
                    SessionState::Draining
                } else {
                    SessionState::Active
                };
                Ok(SetStateParams { desired_state })
            },
            None => Err(SessionError::NotFound),
        }
    }
}

/// The `set_state` message that carries a reconciliation command.
pub fn command_params(cmd: ReconciliationCommand) -> (r: SetStateParams)
    ensures
        r.desired_state == cmd.target_state_spec(),
{
    SetStateParams { desired_state: cmd.target_state() }
}

} // verus!

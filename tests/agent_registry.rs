use fleet_control::agent_controller_pool::{AgentControllerPool, PoolError};
use fleet_control::agent_desired_state::AgentDesiredState;
use fleet_control::agent_session::{command_params, AgentSession, SessionError, SessionState};
use fleet_control::notification_params::{RegisterAgentParams, SetStateParams, UpdateAgentStatusParams};
use fleet_control::persisted_state_store::PersistedStateStore;
use fleet_control::reconciliation::{reconcile, ReconciliationCommand};
use fleet_control::slot_aggregated_status_snapshot::SlotAggregatedStatusSnapshot;

fn snap(total: u64, busy: u64, at: u64) -> SlotAggregatedStatusSnapshot {
    SlotAggregatedStatusSnapshot {
        total_slots: total,
        busy_slots: busy,
        queued_requests: 0,
        last_update_millis: at,
    }
}

fn id(s: &str) -> String {
    s.to_string()
}

#[test]
fn last_submitted_snapshot_wins() {
    let mut pool = AgentControllerPool::new();
    pool.register(id("a"), Some(id("alpha")), snap(4, 0, 1), AgentDesiredState::Active);
    for t in 2..10 {
        pool.update_status(&id("a"), snap(4, t % 4, t)).unwrap();
    }
    let fleet = pool.make_snapshot();
    assert_eq!(fleet.len(), 1);
    let rec = fleet.get(&id("a")).unwrap();
    assert_eq!(rec.latest_snapshot, snap(4, 9 % 4, 9));
    assert_eq!(rec.display_name, Some(id("alpha")));
    assert_eq!(rec.desired_state, AgentDesiredState::Active);
}

#[test]
fn update_of_unknown_agent_is_not_found_and_creates_nothing() {
    let mut pool = AgentControllerPool::new();
    assert_eq!(pool.update_status(&id("ghost"), snap(1, 0, 1)), Err(PoolError::NotFound));
    assert_eq!(pool.make_snapshot().len(), 0);
    assert!(pool.make_snapshot().get(&id("ghost")).is_none());
}

#[test]
fn set_desired_state_of_unknown_agent_is_not_found() {
    let mut pool = AgentControllerPool::new();
    assert_eq!(pool.set_desired_state(&id("ghost"), AgentDesiredState::Draining), Err(PoolError::NotFound));
}

#[test]
fn idle_draining_agent_gets_one_stop() {
    let mut pool = AgentControllerPool::new();
    pool.register(id("a"), None, snap(4, 2, 1), AgentDesiredState::Draining);
    let cmd = pool.update_status(&id("a"), snap(4, 0, 2)).unwrap();
    assert_eq!(cmd, Some(ReconciliationCommand::Stop));
    assert_eq!(command_params(ReconciliationCommand::Stop), SetStateParams { desired_state: AgentDesiredState::Stopped });
}

#[test]
fn busy_draining_agent_gets_nothing() {
    let mut pool = AgentControllerPool::new();
    pool.register(id("a"), None, snap(4, 2, 1), AgentDesiredState::Draining);
    assert_eq!(pool.update_status(&id("a"), snap(4, 1, 2)), Ok(None));
}

#[test]
fn overloaded_active_agent_is_drained() {
    let mut pool = AgentControllerPool::new();
    pool.register(id("a"), None, snap(4, 0, 1), AgentDesiredState::Active);
    let cmd = pool.update_status(&id("a"), snap(4, 5, 2)).unwrap();
    assert_eq!(cmd, Some(ReconciliationCommand::Drain));
    assert_eq!(command_params(ReconciliationCommand::Drain), SetStateParams { desired_state: AgentDesiredState::Draining });
}

#[test]
fn reconcile_rules() {
    assert_eq!(reconcile(&snap(4, 4, 0), AgentDesiredState::Active), None);
    assert_eq!(reconcile(&snap(4, 5, 0), AgentDesiredState::Active), Some(ReconciliationCommand::Drain));
    assert_eq!(reconcile(&snap(4, 0, 0), AgentDesiredState::Draining), Some(ReconciliationCommand::Stop));
    assert_eq!(reconcile(&snap(4, 0, 0), AgentDesiredState::Stopped), None);
    assert_eq!(reconcile(&snap(0, 0, 0), AgentDesiredState::Active), None);
}

#[test]
fn register_twice_overwrites() {
    let mut pool = AgentControllerPool::new();
    pool.register(id("a"), Some(id("first")), snap(4, 1, 1), AgentDesiredState::Draining);
    pool.register(id("a"), None, snap(8, 0, 2), AgentDesiredState::Active);
    let fleet = pool.make_snapshot();
    assert_eq!(fleet.len(), 1);
    let rec = fleet.get(&id("a")).unwrap();
    assert_eq!(rec.display_name, None);
    assert_eq!(rec.latest_snapshot, snap(8, 0, 2));
    assert_eq!(rec.desired_state, AgentDesiredState::Active);
}

#[test]
fn remove_is_idempotent() {
    let mut pool = AgentControllerPool::new();
    pool.register(id("a"), None, snap(1, 0, 1), AgentDesiredState::Active);
    pool.register(id("b"), None, snap(1, 0, 1), AgentDesiredState::Active);
    pool.remove(&id("a"));
    pool.remove(&id("a"));
    let fleet = pool.make_snapshot();
    assert_eq!(fleet.len(), 1);
    assert!(fleet.get(&id("a")).is_none());
    assert!(fleet.get(&id("b")).is_some());
}

#[test]
fn updates_for_many_agents_are_all_visible() {
    let mut pool = AgentControllerPool::new();
    let n: u64 = 16;
    for i in 0..n {
        pool.register(format!("agent-{i}"), None, snap(4, 0, 0), AgentDesiredState::Active);
    }
    for i in (0..n).rev() {
        assert!(pool.update_status(&format!("agent-{i}"), snap(4, i % 4, i + 100)).is_ok());
    }
    let fleet = pool.make_snapshot();
    assert_eq!(fleet.len(), n as usize);
    for i in 0..n {
        assert_eq!(fleet.get(&format!("agent-{i}")).unwrap().latest_snapshot, snap(4, i % 4, i + 100));
    }
}

#[test]
fn store_put_then_get() {
    let mut store = PersistedStateStore::new();
    assert_eq!(store.get(&id("a")), None);
    store.put(&id("a"), AgentDesiredState::Draining);
    store.put(&id("b"), AgentDesiredState::Active);
    store.put(&id("a"), AgentDesiredState::Stopped);
    assert_eq!(store.get(&id("a")), Some(AgentDesiredState::Stopped));
    assert_eq!(store.get(&id("b")), Some(AgentDesiredState::Active));
}

#[test]
fn desired_state_survives_restart() {
    let mut first = PersistedStateStore::new();
    first.put(&id("A"), AgentDesiredState::Draining);
    let written = first.to_text();
    let second = PersistedStateStore::from_text(&written).unwrap();
    assert_eq!(second.get(&id("A")), Some(AgentDesiredState::Draining));
}

#[test]
fn store_text_format() {
    let mut store = PersistedStateStore::new();
    store.put(&id("a\\b"), AgentDesiredState::Active);
    store.put(&id("c\nd"), AgentDesiredState::Stopped);
    let text: String = store.to_text().iter().collect();
    assert_eq!(text, "Aa\\\\b\nSc\\nd\n");
    let back = PersistedStateStore::from_text(&store.to_text()).unwrap();
    assert_eq!(back.get(&id("a\\b")), Some(AgentDesiredState::Active));
    assert_eq!(back.get(&id("c\nd")), Some(AgentDesiredState::Stopped));
}

#[test]
fn malformed_store_text_is_refused() {
    let bad: Vec<char> = "Xabc\n".chars().collect();
    assert!(PersistedStateStore::from_text(&bad).is_none());
    let unterminated: Vec<char> = "Aabc".chars().collect();
    assert!(PersistedStateStore::from_text(&unterminated).is_none());
    let bad_escape: Vec<char> = "Aa\\qb\n".chars().collect();
    assert!(PersistedStateStore::from_text(&bad_escape).is_none());
    let empty: Vec<char> = Vec::new();
    assert!(PersistedStateStore::from_text(&empty).is_some());
}

#[test]
fn later_line_wins_when_read() {
    let text: Vec<char> = "Aa\nDa\n".chars().collect();
    let store = PersistedStateStore::from_text(&text).unwrap();
    assert_eq!(store.get(&id("a")), Some(AgentDesiredState::Draining));
}

fn register_params(name: Option<&str>, s: SlotAggregatedStatusSnapshot) -> RegisterAgentParams {
    RegisterAgentParams {
        name: name.map(|n| n.to_string()),
        slot_aggregated_status_snapshot: s,
    }
}

#[test]
fn session_registers_with_default_active() {
    let mut pool = AgentControllerPool::new();
    let store = PersistedStateStore::new();
    let mut session = AgentSession::new();
    assert_eq!(session.state(), SessionState::Connecting);
    let d = session.register(&mut pool, &store, id("a"), register_params(Some("alpha"), snap(2, 0, 1))).unwrap();
    assert_eq!(d, AgentDesiredState::Active);
    assert_eq!(session.state(), SessionState::Active);
    assert_eq!(session.agent_id(), Some(&id("a")));
    let fleet = pool.make_snapshot();
    assert_eq!(fleet.get(&id("a")).unwrap().display_name, Some(id("alpha")));
}

#[test]
fn update_before_register_is_a_protocol_violation() {
    let mut pool = AgentControllerPool::new();
    let mut session = AgentSession::new();
    let r = session.update_status(&mut pool, UpdateAgentStatusParams { slot_aggregated_status_snapshot: snap(1, 0, 1) });
    assert_eq!(r, Err(SessionError::ProtocolViolation));
    assert_eq!(session.state(), SessionState::Closed);
    assert_eq!(pool.make_snapshot().len(), 0);
}

#[test]
fn double_register_closes_session_and_removes_record() {
    let mut pool = AgentControllerPool::new();
    let store = PersistedStateStore::new();
    let mut session = AgentSession::new();
    session.register(&mut pool, &store, id("a"), register_params(None, snap(2, 0, 1))).unwrap();
    let r = session.register(&mut pool, &store, id("a"), register_params(None, snap(2, 0, 2)));
    assert_eq!(r, Err(SessionError::ProtocolViolation));
    assert_eq!(session.state(), SessionState::Closed);
    assert!(pool.make_snapshot().get(&id("a")).is_none());
}

#[test]
fn set_state_persists_and_moves_to_draining() {
    let mut pool = AgentControllerPool::new();
    let mut store = PersistedStateStore::new();
    let mut session = AgentSession::new();
    session.register(&mut pool, &store, id("a"), register_params(None, snap(2, 1, 1))).unwrap();
    let cmd = session.set_state(&mut pool, &mut store, AgentDesiredState::Draining).unwrap();
    assert_eq!(cmd, SetStateParams { desired_state: AgentDesiredState::Draining });
    assert_eq!(session.state(), SessionState::Draining);
    assert_eq!(store.get(&id("a")), Some(AgentDesiredState::Draining));
    assert_eq!(pool.desired_state_of(&id("a")), Some(AgentDesiredState::Draining));
    let stop = session.update_status(&mut pool, UpdateAgentStatusParams { slot_aggregated_status_snapshot: snap(2, 0, 2) });
    assert_eq!(stop, Ok(Some(ReconciliationCommand::Stop)));
}

#[test]
fn set_state_on_unregistered_session_is_not_found() {
    let mut pool = AgentControllerPool::new();
    let mut store = PersistedStateStore::new();
    let mut session = AgentSession::new();
    assert_eq!(session.set_state(&mut pool, &mut store, AgentDesiredState::Stopped), Err(SessionError::NotFound));
    assert_eq!(store.get(&id("a")), None);
}

#[test]
fn reconnect_recovers_desired_state_but_not_snapshot() {
    let mut pool = AgentControllerPool::new();
    let mut store = PersistedStateStore::new();
    let mut first = AgentSession::new();
    first.register(&mut pool, &store, id("a"), register_params(None, snap(4, 3, 1))).unwrap();
    first.set_state(&mut pool, &mut store, AgentDesiredState::Draining).unwrap();
    first.close(&mut pool);
    assert_eq!(first.state(), SessionState::Closed);
    assert!(pool.make_snapshot().get(&id("a")).is_none());

    let mut second = AgentSession::new();
    let d = second.register(&mut pool, &store, id("a"), register_params(None, snap(4, 1, 5))).unwrap();
    assert_eq!(d, AgentDesiredState::Draining);
    assert_eq!(second.state(), SessionState::Draining);
    let fleet = pool.make_snapshot();
    let rec = fleet.get(&id("a")).unwrap();
    assert_eq!(rec.latest_snapshot, snap(4, 1, 5));
    assert_eq!(rec.desired_state, AgentDesiredState::Draining);
}

#[test]
fn rejected_connection_is_closed() {
    let mut pool = AgentControllerPool::new();
    let store = PersistedStateStore::new();
    let mut session = AgentSession::new();
    session.register(&mut pool, &store, id("a"), register_params(None, snap(1, 0, 1))).unwrap();
    assert_eq!(session.reject(&mut pool), SessionError::ProtocolViolation);
    assert_eq!(session.state(), SessionState::Closed);
    assert_eq!(pool.make_snapshot().len(), 0);
}

#[test]
fn snapshot_consistency_checks() {
    assert!(snap(4, 4, 0).is_consistent());
    assert!(!snap(4, 5, 0).is_consistent());
    assert!(snap(4, 0, 0).is_idle());
    assert!(!snap(4, 1, 0).is_idle());
}

use vstd::prelude::*;

use crate::agent_controller_pool::{register_spec, update_status_spec, AgentEntryView};
use crate::agent_desired_state::AgentDesiredState;
use crate::agent_session::initial_desired_state;
use crate::reconciliation::{reconcile_spec, ReconciliationCommand};
use crate::slot_aggregated_status_snapshot::SlotAggregatedStatusSnapshot;

verus! {

/// The registry after the reports `snapshots` for `id`, in order.
pub open spec fn apply_updates(
    m: Map<Seq<char>, AgentEntryView>,
    id: Seq<char>,
    snapshots: Seq<SlotAggregatedStatusSnapshot>,
) -> Map<Seq<char>, AgentEntryView>
    decreases snapshots.len(),
{
    if snapshots.len() == 0 {
        m
    } else {
        update_status_spec(apply_updates(m, id, snapshots.drop_last()), id, snapshots.last())
    }
}

/// Last write wins: after an agent registers and reports any number of
/// snapshots, the registry holds the last one reported (the initial one if
/// none was), with the name and desired state of the registration.
pub proof fn lemma_last_write_wins(
    m: Map<Seq<char>, AgentEntryView>,
    id: Seq<char>,
    display_name: Option<Seq<char>>,
    initial: SlotAggregatedStatusSnapshot,
    desired: AgentDesiredState,
    snapshots: Seq<SlotAggregatedStatusSnapshot>,
)
    ensures
        ({
            let r = apply_updates(register_spec(m, id, display_name, initial, desired), id, snapshots);
            &&& r.contains_key(id)
            &&& r[id].snapshot == if snapshots.len() == 0 {
                initial
            } else {
                snapshots.last()
            }
            &&& r[id].display_name == display_name
            &&& r[id].desired_state == desired
            &&& r.dom() == m.dom().insert(id)
        }),
    decreases snapshots.len(),
{
    if snapshots.len() > 0 {
        lemma_last_write_wins(m, id, display_name, initial, desired, snapshots.drop_last());
        let r0 = apply_updates(register_spec(m, id, display_name, initial, desired), id, snapshots.drop_last());
        let r = apply_updates(register_spec(m, id, display_name, initial, desired), id, snapshots);
        assert(r == update_status_spec(r0, id, snapshots.last()));
        assert(r.dom() =~= r0.dom());
    } else {
        let r = register_spec(m, id, display_name, initial, desired);
        assert(apply_updates(r, id, snapshots) == r);
        assert(r.dom() =~= m.dom().insert(id));
    }
}

/// A draining agent registered with that desired state, whose next report
/// shows no busy slot, is told to stop.
pub proof fn lemma_idle_draining_agent_is_stopped(
    m: Map<Seq<char>, AgentEntryView>,
    id: Seq<char>,
    display_name: Option<Seq<char>>,
    initial: SlotAggregatedStatusSnapshot,
    report: SlotAggregatedStatusSnapshot,
)
    requires
        report.busy_slots == 0,
    ensures
        ({
            let r = register_spec(m, id, display_name, initial, AgentDesiredState::Draining);
            &&& r.contains_key(id)
            &&& reconcile_spec(report, r[id].desired_state) == Some(ReconciliationCommand::Stop)
        }),
{
}

/// An active agent whose report claims more busy slots than it has is told
/// to drain.
pub proof fn lemma_overloaded_active_agent_is_drained(
    m: Map<Seq<char>, AgentEntryView>,
    id: Seq<char>,
    display_name: Option<Seq<char>>,
    initial: SlotAggregatedStatusSnapshot,
    report: SlotAggregatedStatusSnapshot,
)
    requires
        report.busy_slots > report.total_slots,
    ensures
        ({
            let r = register_spec(m, id, display_name, initial, AgentDesiredState::Active);
            &&& r.contains_key(id)
            &&& reconcile_spec(report, r[id].desired_state) == Some(ReconciliationCommand::Drain)
        }),
{
}

/// An agent removed and registered again under the same id holds the
/// snapshot of its new registration, not its old one, and takes back the
/// desired state that the store holds for it.
pub proof fn lemma_reregistration_recovers_desired_state(
    m: Map<Seq<char>, AgentEntryView>,
    store: Map<Seq<char>, AgentDesiredState>,
    id: Seq<char>,
    display_name: Option<Seq<char>>,
    report: SlotAggregatedStatusSnapshot,
)
    ensures
        ({
            let r = register_spec(m.remove(id), id, display_name, report, initial_desired_state(store, id));
            &&& r.contains_key(id)
            &&& r[id].snapshot == report
            &&& store.contains_key(id) ==> r[id].desired_state == store[id]
            &&& !store.contains_key(id) ==> r[id].desired_state == AgentDesiredState::Active
        }),
{
}

/// The registry after the reports `reports`, each an id and a snapshot, in order.
pub open spec fn apply_reports(
    m: Map<Seq<char>, AgentEntryView>,
    reports: Seq<(Seq<char>, SlotAggregatedStatusSnapshot)>,
) -> Map<Seq<char>, AgentEntryView>
    decreases reports.len(),
{
    if reports.len() == 0 {
        m
    } else {
        update_status_spec(apply_reports(m, reports.drop_last()), reports.last().0, reports.last().1)
    }
}

/// Reports for two different agents commute: the order in which they are
/// applied does not matter.
pub proof fn lemma_reports_commute(
    m: Map<Seq<char>, AgentEntryView>,
    a: Seq<char>,
    sa: SlotAggregatedStatusSnapshot,
    b: Seq<char>,
    sb: SlotAggregatedStatusSnapshot,
)
    requires
        a != b,
    ensures
        update_status_spec(update_status_spec(m, a, sa), b, sb) == update_status_spec(
            update_status_spec(m, b, sb),
            a,
            sa,
        ),
{
    assert(update_status_spec(update_status_spec(m, a, sa), b, sb) =~= update_status_spec(
        update_status_spec(m, b, sb),
        a,
        sa,
    ));
}

/// Reports for distinct registered agents, applied in any order, all
/// succeed and are all visible afterwards: each agent holds its own report,
/// and no agent appears or disappears.
pub proof fn lemma_distinct_reports_all_visible(
    m: Map<Seq<char>, AgentEntryView>,
    reports: Seq<(Seq<char>, SlotAggregatedStatusSnapshot)>,
)
    requires
        forall|i: int| 0 <= i < reports.len() ==> m.contains_key(#[trigger] reports[i].0),
        forall|i: int, j: int| 0 <= i < j < reports.len() ==> reports[i].0 != reports[j].0,
    ensures
        apply_reports(m, reports).dom() == m.dom(),
        forall|i: int| 0 <= i < reports.len() ==> {
            &&& (#[trigger] apply_reports(m, reports)[reports[i].0]).snapshot == reports[i].1
            &&& apply_reports(m, reports)[reports[i].0].desired_state == m[reports[i].0].desired_state
            &&& apply_reports(m, reports)[reports[i].0].display_name == m[reports[i].0].display_name
        },
        forall|id: Seq<char>| #[trigger] m.contains_key(id) && (forall|i: int| 0 <= i < reports.len() ==> reports[i].0 != id)
            ==> apply_reports(m, reports)[id] == m[id],
    decreases reports.len(),
{
    if reports.len() > 0 {
        let init = reports.drop_last();
        lemma_distinct_reports_all_visible(m, init);
        let r0 = apply_reports(m, init);
        let last = reports.last();
        let r = apply_reports(m, reports);
        assert(r == update_status_spec(r0, last.0, last.1));
        assert(r.dom() =~= r0.dom());
        assert forall|i: int| 0 <= i < reports.len() implies {
            &&& (#[trigger] r[reports[i].0]).snapshot == reports[i].1
            &&& r[reports[i].0].desired_state == m[reports[i].0].desired_state
            &&& r[reports[i].0].display_name == m[reports[i].0].display_name
        } by {
            if i < reports.len() - 1 {
                assert(init[i] == reports[i]);
                assert(reports[i].0 != last.0);
            } else {
                assert forall|j: int| 0 <= j < init.len() implies init[j].0 != last.0 by {
                    assert(init[j] == reports[j]);
                }
            }
        }
        assert forall|id: Seq<char>| #[trigger] m.contains_key(id) && (forall|i: int| 0 <= i < reports.len() ==> reports[i].0 != id)
            implies r[id] == m[id] by {
            assert forall|j: int| 0 <= j < init.len() implies init[j].0 != id by {
                assert(init[j] == reports[j]);
            }
            assert(reports[reports.len() - 1].0 != id);
        }
    }
}

} // verus!

use vstd::prelude::*;

use crate::agent_desired_state::AgentDesiredState;
use crate::reconciliation::{reconcile, reconcile_spec, ReconciliationCommand};
use crate::slot_aggregated_status_snapshot::SlotAggregatedStatusSnapshot;

verus! {

/// What the registry knows of one agent, as a mathematical value.
pub struct AgentEntryView {
    pub display_name: Option<Seq<char>>,
    pub snapshot: SlotAggregatedStatusSnapshot,
    pub desired_state: AgentDesiredState,
}

pub open spec fn name_view(name: Option<String>) -> Option<Seq<char>> {
    match name {
        Some(s) => Some(s@),
        None => None,
    }
}

/// One agent known to the registry.
pub struct AgentRecord {
    pub id: String,
    pub display_name: Option<String>,
    pub latest_snapshot: SlotAggregatedStatusSnapshot,
    pub desired_state: AgentDesiredState,
}

impl AgentRecord {
    pub open spec fn entry_view(&self) -> AgentEntryView {
        AgentEntryView {
            display_name: name_view(self.display_name),
            snapshot: self.latest_snapshot,
            desired_state: self.desired_state,
        }
    }

    /// A copy of the record's public fields.
    pub fn duplicate(&self) -> (r: AgentRecord)
        ensures
            r.id@ == self.id@,
            r.entry_view() == self.entry_view(),
    {
        let display_name = match &self.display_name {
            Some(n) => Some(n.clone()),
            None => None,
        };
        AgentRecord {
            id: self.id.clone(),
            display_name,
            latest_snapshot: self.latest_snapshot,
            desired_state: self.desired_state,
        }
    }
}

/// No two records of the sequence share an id.
pub open spec fn ids_unique(records: Seq<AgentRecord>) -> bool {
    forall|i: int, j: int|
        0 <= i < j < records.len() ==> (#[trigger] records[i]).id@ != (#[trigger] records[j]).id@
}

pub open spec fn holds_id(records: Seq<AgentRecord>, id: Seq<char>) -> bool {
    exists|i: int| 0 <= i < records.len() && (#[trigger] records[i]).id@ == id
}

pub open spec fn index_of_id(records: Seq<AgentRecord>, id: Seq<char>) -> int {
    choose|i: int| 0 <= i < records.len() && (#[trigger] records[i]).id@ == id
}

/// The registry that a sequence of records stands for: each id to its entry.
pub open spec fn records_view(records: Seq<AgentRecord>) -> Map<Seq<char>, AgentEntryView> {
    Map::new(
        |id: Seq<char>| holds_id(records, id),
        |id: Seq<char>| records[index_of_id(records, id)].entry_view(),
    )
}

/// Where the record of `id` sits, in a sequence whose ids are unique.
pub proof fn lemma_index_of_id(records: Seq<AgentRecord>, i: int)
    requires
        ids_unique(records),
        0 <= i < records.len(),
    ensures
        holds_id(records, records[i].id@),
        index_of_id(records, records[i].id@) == i,
{
    let id = records[i].id@;
    assert(holds_id(records, id));
    let j = index_of_id(records, id);
    if j != i {
        if j < i {
            assert(records[j].id@ != records[i].id@);
        } else {
            assert(records[i].id@ != records[j].id@);
        }
    }
}

/// Replacing the record at `i` by one with the same id changes the registry
/// at that id only.
pub proof fn lemma_view_after_replace(records: Seq<AgentRecord>, i: int, rec: AgentRecord)
    requires
        ids_unique(records),
        0 <= i < records.len(),
        rec.id@ == records[i].id@,
    ensures
        ids_unique(records.update(i, rec)),
        records_view(records.update(i, rec)) == records_view(records).insert(rec.id@, rec.entry_view()),
{
    let s2 = records.update(i, rec);
    assert forall|a: int, b: int| 0 <= a < b < s2.len() implies (#[trigger] s2[a]).id@ != (#[trigger] s2[b]).id@ by {
        assert(records[a].id@ != records[b].id@);
    }
    lemma_index_of_id(s2, i);
    assert forall|id: Seq<char>| #[trigger] holds_id(s2, id) == (holds_id(records, id) || id == rec.id@) by {
        if holds_id(records, id) {
            let k = index_of_id(records, id);
            if k != i {
                assert(s2[k].id@ == id);
            }
        }
        if holds_id(s2, id) {
            let k = index_of_id(s2, id);
            assert(k == i || records[k].id@ == id);
        }
    }
    assert forall|id: Seq<char>| #[trigger] holds_id(s2, id) && id != rec.id@ implies
        records_view(s2)[id] == records_view(records)[id] by {
        let k = index_of_id(records, id);
        assert(s2[k].id@ == id);
        lemma_index_of_id(records, k);
        lemma_index_of_id(s2, k);
    }
    assert(records_view(s2) =~= records_view(records).insert(rec.id@, rec.entry_view()));
}

/// Appending a record with a fresh id adds exactly that id to the registry.
pub proof fn lemma_view_after_push(records: Seq<AgentRecord>, rec: AgentRecord)
    requires
        ids_unique(records),
        !holds_id(records, rec.id@),
    ensures
        ids_unique(records.push(rec)),
        records_view(records.push(rec)) == records_view(records).insert(rec.id@, rec.entry_view()),
{
    let s2 = records.push(rec);
    assert forall|a: int, b: int| 0 <= a < b < s2.len() implies (#[trigger] s2[a]).id@ != (#[trigger] s2[b]).id@ by {
        if b < records.len() {
            assert(records[a].id@ != records[b].id@);
        } else {
            assert(s2[a] == records[a]);
        }
    }
    lemma_index_of_id(s2, records.len() as int);
    assert forall|id: Seq<char>| #[trigger] holds_id(s2, id) == (holds_id(records, id) || id == rec.id@) by {
        if holds_id(records, id) {
            let k = index_of_id(records, id);
            assert(s2[k].id@ == id);
        }
        if holds_id(s2, id) && id != rec.id@ {
            let k = index_of_id(s2, id);
            assert(records[k].id@ == id);
        }
    }
    assert forall|id: Seq<char>| #[trigger] holds_id(s2, id) && id != rec.id@ implies
        records_view(s2)[id] == records_view(records)[id] by {
        let k = index_of_id(records, id);
        assert(s2[k].id@ == id);
        lemma_index_of_id(records, k);
        lemma_index_of_id(s2, k);
    }
    assert(records_view(s2) =~= records_view(records).insert(rec.id@, rec.entry_view()));
}

/// Removing the record at `i` removes exactly its id from the registry.
pub proof fn lemma_view_after_remove(records: Seq<AgentRecord>, i: int)
    requires
        ids_unique(records),
        0 <= i < records.len(),
    ensures
        ids_unique(records.remove(i)),
        records_view(records.remove(i)) == records_view(records).remove(records[i].id@),
{
    let s2 = records.remove(i);
    let gone = records[i].id@;
    assert forall|a: int, b: int| 0 <= a < b < s2.len() implies (#[trigger] s2[a]).id@ != (#[trigger] s2[b]).id@ by {
        let a0 = if a < i { a } else { a + 1 };
        let b0 = if b < i { b } else { b + 1 };
        assert(s2[a] == records[a0]);
        assert(s2[b] == records[b0]);
        assert(records[a0].id@ != records[b0].id@);
    }
    assert forall|id: Seq<char>| #[trigger] holds_id(s2, id) == (holds_id(records, id) && id != gone) by {
        if holds_id(s2, id) {
            let k = index_of_id(s2, id);
            let k0 = if k < i { k } else { k + 1 };
            assert(records[k0] == s2[k]);
            assert(k0 != i) by {
                if k0 == i {
                    assert(false);
                }
            }
            if id == gone {
                if k0 < i {
                    assert(records[k0].id@ != records[i].id@);
                } else {
                    assert(records[i].id@ != records[k0].id@);
                }
            }
        }
        if holds_id(records, id) && id != gone {
            let k = index_of_id(records, id);
            assert(k != i);
            let k2 = if k < i { k } else { k - 1 };
            assert(s2[k2] == records[k]);
        }
    }
    assert forall|id: Seq<char>| #[trigger] holds_id(s2, id) implies
        records_view(s2)[id] == records_view(records)[id] by {
        let k = index_of_id(s2, id);
        let k0 = if k < i { k } else { k + 1 };
        assert(records[k0] == s2[k]);
        lemma_index_of_id(records, k0);
        lemma_index_of_id(s2, k);
    }
    assert(records_view(s2) =~= records_view(records).remove(gone));
}

/// Two sequences with the same ids and entries, index by index, stand for
/// the same registry.
pub proof fn lemma_view_same_fields(a: Seq<AgentRecord>, b: Seq<AgentRecord>)
    requires
        ids_unique(a),
        a.len() == b.len(),
        forall|i: int| 0 <= i < a.len() ==> (#[trigger] a[i]).id@ == b[i].id@ && a[i].entry_view() == b[i].entry_view(),
    ensures
        ids_unique(b),
        records_view(a) == records_view(b),
{
    assert forall|x: int, y: int| 0 <= x < y < b.len() implies (#[trigger] b[x]).id@ != (#[trigger] b[y]).id@ by {
        assert(a[x].id@ != a[y].id@);
    }
    assert forall|id: Seq<char>| #[trigger] holds_id(a, id) == holds_id(b, id) by {
        if holds_id(a, id) {
            let k = index_of_id(a, id);
            assert(b[k].id@ == id);
        }
        if holds_id(b, id) {
            let k = index_of_id(b, id);
            assert(a[k].id@ == id);
        }
    }
    assert forall|id: Seq<char>| #[trigger] holds_id(a, id) implies records_view(a)[id] == records_view(b)[id] by {
        let k = index_of_id(a, id);
        lemma_index_of_id(a, k);
        assert(b[k].id@ == id);
        lemma_index_of_id(b, k);
    }
    assert(records_view(a) =~= records_view(b));
}

/// Registering `id` sets its whole entry, whether or not it was known.
pub open spec fn register_spec(
    m: Map<Seq<char>, AgentEntryView>,
    id: Seq<char>,
    display_name: Option<Seq<char>>,
    snapshot: SlotAggregatedStatusSnapshot,
    desired_state: AgentDesiredState,
) -> Map<Seq<char>, AgentEntryView> {
    m.insert(id, AgentEntryView { display_name, snapshot, desired_state })
}

/// A status report replaces the snapshot of a known agent and keeps the rest.
pub open spec fn update_status_spec(
    m: Map<Seq<char>, AgentEntryView>,
    id: Seq<char>,
    snapshot: SlotAggregatedStatusSnapshot,
) -> Map<Seq<char>, AgentEntryView> {
    if m.contains_key(id) {
        m.insert(id, AgentEntryView { snapshot, ..m[id] })
    } else {
        m
    }
}

/// A new desired state replaces that of a known agent and keeps the rest.
pub open spec fn set_desired_state_spec(
    m: Map<Seq<char>, AgentEntryView>,
    id: Seq<char>,
    desired_state: AgentDesiredState,
) -> Map<Seq<char>, AgentEntryView> {
    if m.contains_key(id) {
        m.insert(id, AgentEntryView { desired_state, ..m[id] })
    } else {
        m
    }
}

/// Why a registry operation was refused.
#[derive(Clone, Copy, Debug, PartialEq, Eq, Structural)]
pub enum PoolError {
    /// The operation names an agent that is not registered.
    NotFound,
}

/// An immutable point-in-time copy of every registered agent.
pub struct FleetSnapshot {
    pub agents: Vec<AgentRecord>,
}

impl FleetSnapshot {
    pub open spec fn view(&self) -> Map<Seq<char>, AgentEntryView> {
        records_view(self.agents@)
    }

    pub open spec fn wf(&self) -> bool {
        ids_unique(self.agents@)
    }

    /// The number of agents in the snapshot.
    pub fn len(&self) -> (r: usize)
        requires
            self.wf(),
        ensures
            r == self.view().len(),
    {
        proof {
            lemma_view_len(self.agents@);
        }
        self.agents.len()
    }

    /// The entry of `agent_id`, if the snapshot holds it.
    pub fn get(&self, agent_id: &String) -> (r: Option<&AgentRecord>)
        requires
            self.wf(),
        ensures
            match r {
                Some(rec) => self.view().contains_key(agent_id@) && rec.id@ == agent_id@
                    && rec.entry_view() == self.view()[agent_id@],
                None => !self.view().contains_key(agent_id@),
            },
    {
        match find_record(&self.agents, agent_id) {
            Some(i) => {
                proof {
                    lemma_index_of_id(self.agents@, i as int);
                }
                Some(&self.agents[i])
            },
            None => None,
        }
    }
}

/// The registry has as many agents as the sequence has records.
pub proof fn lemma_view_len(records: Seq<AgentRecord>)
    requires
        ids_unique(records),
    ensures
        records_view(records).dom().finite(),
        records_view(records).len() == records.len(),
    decreases records.len(),
{
    if records.len() == 0 {
        assert(records_view(records) =~= Map::empty());
    } else {
        let last = records.len() - 1;
        let init = records.drop_last();
        assert(init.push(records[last]) =~= records);
        assert(ids_unique(init)) by {
            assert forall|a: int, b: int| 0 <= a < b < init.len() implies (#[trigger] init[a]).id@ != (#[trigger] init[b]).id@ by {
                assert(records[a].id@ != records[b].id@);
            }
        }
        assert(!holds_id(init, records[last].id@)) by {
            if holds_id(init, records[last].id@) {
                let k = index_of_id(init, records[last].id@);
                assert(records[k].id@ != records[last].id@);
            }
        }
        lemma_view_len(init);
        lemma_view_after_push(init, records[last]);
        assert(records_view(records).dom() =~= records_view(init).dom().insert(records[last].id@));
    }
}

/// The position of the record of `agent_id`, if there is one.
fn find_record(records: &Vec<AgentRecord>, agent_id: &String) -> (r: Option<usize>)
    ensures
        match r {
            Some(i) => i < records@.len() && records@[i as int].id@ == agent_id@,
            None => !holds_id(records@, agent_id@),
        },
{
    let mut i: usize = 0;
    while i < records.len()
        invariant
            i <= records@.len(),
            forall|j: int| 0 <= j < i ==> (#[trigger] records@[j]).id@ != agent_id@,
        decreases records@.len() - i,
    {
        if records[i].id == *agent_id {
            return Some(i);
        }
        i = i + 1;
    }
    None
}

/// The registry of all known agents.
///
/// The pool is the only owner and mutator of the records; it hands out
/// copies through `make_snapshot`.
pub struct AgentControllerPool {
    records: Vec<AgentRecord>,
}

impl AgentControllerPool {
    pub closed spec fn wf(&self) -> bool {
        ids_unique(self.records@)
    }

    /// Each registered id and what is known of that agent.
    pub closed spec fn view(&self) -> Map<Seq<char>, AgentEntryView> {
        records_view(self.records@)
    }

    pub fn new() -> (r: AgentControllerPool)
        ensures
            r.wf(),
            r.view() == Map::<Seq<char>, AgentEntryView>::empty(),
    {
        let r = AgentControllerPool { records: Vec::new() };
        assert(r.view() =~= Map::<Seq<char>, AgentEntryView>::empty());
        r
    }

    /// Inserts the record of `agent_id`, or replaces it whole when the agent
    /// was already registered (a reconnect overwrites, it does not merge).
    pub fn register(
        &mut self,
        agent_id: String,
        display_name: Option<String>,
        initial_snapshot: SlotAggregatedStatusSnapshot,
        desired_state: AgentDesiredState,
    )
        requires
            old(self).wf(),
        ensures
            final(self).wf(),
            final(self).view() == register_spec(
                old(self).view(),
                agent_id@,
                name_view(display_name),
                initial_snapshot,
                desired_state,
            ),
    {
        let rec = AgentRecord {
            id: agent_id,
            display_name,
            latest_snapshot: initial_snapshot,
            desired_state,
        };
        match find_record(&self.records, &rec.id) {
            Some(i) => {
                proof {
                    lemma_view_after_replace(self.records@, i as int, rec);
                }
                self.records.set(i, rec);
            },
            None => {
                proof {
                    lemma_view_after_push(self.records@, rec);
                }
                self.records.push(rec);
            },
        }
    }

    /// Replaces the latest snapshot of a registered agent and returns the
    /// correction that the new report calls for.
    pub fn update_status(&mut self, agent_id: &String, snapshot: SlotAggregatedStatusSnapshot) -> (r:
        Result<Option<ReconciliationCommand>, PoolError>)
        requires
            old(self).wf(),
        ensures
            final(self).wf(),
            final(self).view() == update_status_spec(old(self).view(), agent_id@, snapshot),
            match r {
                Ok(cmd) => old(self).view().contains_key(agent_id@) && cmd == reconcile_spec(
                    snapshot,
                    old(self).view()[agent_id@].desired_state,
                ),
                Err(e) => e == PoolError::NotFound && !old(self).view().contains_key(agent_id@),
            },
    {
        match find_record(&self.records, agent_id) {
            Some(i) => {
                let old_rec = &self.records[i];
                let rec = AgentRecord {
                    id: old_rec.id.clone(),
                    display_name: match &old_rec.display_name {
                        Some(n) => Some(n.clone()),
                        None => None,
                    },
                    latest_snapshot: snapshot,
                    desired_state: old_rec.desired_state,
                };
                let cmd = reconcile(&snapshot, rec.desired_state);
                proof {
                    lemma_index_of_id(self.records@, i as int);
                    lemma_view_after_replace(self.records@, i as int, rec);
                }
                self.records.set(i, rec);
                Ok(cmd)
            },
            None => Err(PoolError::NotFound),
        }
    }

    /// Replaces the desired state of a registered agent.
    pub fn set_desired_state(&mut self, agent_id: &String, desired_state: AgentDesiredState) -> (r:
        Result<(), PoolError>)
        requires
            old(self).wf(),
        ensures
            final(self).wf(),
            final(self).view() == set_desired_state_spec(old(self).view(), agent_id@, desired_state),
            match r {
                Ok(()) => old(self).view().contains_key(agent_id@),
                Err(e) => e == PoolError::NotFound && !old(self).view().contains_key(agent_id@),
            },
    {
        match find_record(&self.records, agent_id) {
            Some(i) => {
                let old_rec = &self.records[i];
                let rec = AgentRecord {
                    id: old_rec.id.clone(),
                    display_name: match &old_rec.display_name {
                        Some(n) => Some(n.clone()),
                        None => None,
                    },
                    latest_snapshot: old_rec.latest_snapshot,
                    desired_state,
                };
                proof {
                    lemma_index_of_id(self.records@, i as int);
                    lemma_view_after_replace(self.records@, i as int, rec);
                }
                self.records.set(i, rec);
                Ok(())
            },
            None => Err(PoolError::NotFound),
        }
    }

    /// Deletes the record of `agent_id`; nothing happens when there is none.
    pub fn remove(&mut self, agent_id: &String)
        requires
            old(self).wf(),
        ensures
            final(self).wf(),
            final(self).view() == old(self).view().remove(agent_id@),
    {
        match find_record(&self.records, agent_id) {
            Some(i) => {
                proof {
                    lemma_view_after_remove(self.records@, i as int);
                }
                self.records.remove(i);
            },
            None => {
                assert(old(self).view().remove(agent_id@) =~= old(self).view());
            },
        }
    }

    /// The desired state of a registered agent.
    pub fn desired_state_of(&self, agent_id: &String) -> (r: Option<AgentDesiredState>)
        requires
            self.wf(),
        ensures
            match r {
                Some(d) => self.view().contains_key(agent_id@) && d == self.view()[agent_id@].desired_state,
                None => !self.view().contains_key(agent_id@),
            },
    {
        match find_record(&self.records, agent_id) {
            Some(i) => {
                proof {
                    lemma_index_of_id(self.records@, i as int);
                }
                Some(self.records[i].desired_state)
            },
            None => None,
        }
    }

    /// A point-in-time copy of every record's public fields.
    pub fn make_snapshot(&self) -> (r: FleetSnapshot)
        requires
            self.wf(),
        ensures
            r.wf(),
            r.view() == self.view(),
    {
        let mut agents: Vec<AgentRecord> = Vec::new();
        let mut i: usize = 0;
        while i < self.records.len()
            invariant
                i <= self.records@.len(),
                agents@.len() == i,
                forall|j: int| 0 <= j < i ==> (#[trigger] agents@[j]).id@ == self.records@[j].id@
                    && agents@[j].entry_view() == self.records@[j].entry_view(),
            decreases self.records@.len() - i,
        {
            agents.push(self.records[i].duplicate());
            i = i + 1;
        }
        proof {
            lemma_view_same_fields(self.records@, agents@);
        }
        FleetSnapshot { agents }
    }
}

} // verus!

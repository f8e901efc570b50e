use vstd::prelude::*;

use crate::agent_desired_state::AgentDesiredState;
use crate::state_file_format::{
    decode_assignments, decode_lines, encode_line, encode_lines, lemma_decode_encode,
    lemma_encode_push, pairs_view, write_line,
};

verus! {

/// One durable desired-state assignment.
pub struct PersistedStateEntry {
    pub agent_id: String,
    pub desired_state: AgentDesiredState,
}

pub open spec fn entry_ids_unique(entries: Seq<PersistedStateEntry>) -> bool {
    forall|i: int, j: int|
        0 <= i < j < entries.len() ==> (#[trigger] entries[i]).agent_id@ != (#[trigger] entries[j]).agent_id@
}

pub open spec fn entries_hold(entries: Seq<PersistedStateEntry>, id: Seq<char>) -> bool {
    exists|i: int| 0 <= i < entries.len() && (#[trigger] entries[i]).agent_id@ == id
}

pub open spec fn entry_index(entries: Seq<PersistedStateEntry>, id: Seq<char>) -> int {
    choose|i: int| 0 <= i < entries.len() && (#[trigger] entries[i]).agent_id@ == id
}

/// The assignments that a sequence of entries stands for.
pub open spec fn entries_view(entries: Seq<PersistedStateEntry>) -> Map<Seq<char>, AgentDesiredState> {
    Map::new(
        |id: Seq<char>| entries_hold(entries, id),
        |id: Seq<char>| entries[entry_index(entries, id)].desired_state,
    )
}

pub proof fn lemma_entry_index(entries: Seq<PersistedStateEntry>, i: int)
    requires
        entry_ids_unique(entries),
        0 <= i < entries.len(),
    ensures
        entries_hold(entries, entries[i].agent_id@),
        entry_index(entries, entries[i].agent_id@) == i,
{
    let id = entries[i].agent_id@;
    assert(entries_hold(entries, id));
    let j = entry_index(entries, id);
    if j != i {
        if j < i {
            assert(entries[j].agent_id@ != entries[i].agent_id@);
        } else {
            assert(entries[i].agent_id@ != entries[j].agent_id@);
        }
    }
}

/// Setting `entries[i]` to an entry of the same id changes that id only.
pub proof fn lemma_entries_after_replace(entries: Seq<PersistedStateEntry>, i: int, e: PersistedStateEntry)
    requires
        entry_ids_unique(entries),
        0 <= i < entries.len(),
        e.agent_id@ == entries[i].agent_id@,
    ensures
        entry_ids_unique(entries.update(i, e)),
        entries_view(entries.update(i, e)) == entries_view(entries).insert(e.agent_id@, e.desired_state),
{
    let s2 = entries.update(i, e);
    assert forall|a: int, b: int| 0 <= a < b < s2.len() implies (#[trigger] s2[a]).agent_id@ != (#[trigger] s2[b]).agent_id@ by {
        assert(entries[a].agent_id@ != entries[b].agent_id@);
    }
    lemma_entry_index(s2, i);
    assert forall|id: Seq<char>| #[trigger] entries_hold(s2, id) == (entries_hold(entries, id) || id == e.agent_id@) by {
        if entries_hold(entries, id) {
            let k = entry_index(entries, id);
            if k != i {
                assert(s2[k].agent_id@ == id);
            }
        }
        if entries_hold(s2, id) {
            let k = entry_index(s2, id);
            assert(k == i || entries[k].agent_id@ == id);
        }
    }
    assert forall|id: Seq<char>| #[trigger] entries_hold(s2, id) && id != e.agent_id@ implies
        entries_view(s2)[id] == entries_view(entries)[id] by {
        let k = entry_index(entries, id);
        assert(s2[k].agent_id@ == id);
        lemma_entry_index(entries, k);
        lemma_entry_index(s2, k);
    }
    assert(entries_view(s2) =~= entries_view(entries).insert(e.agent_id@, e.desired_state));
}

/// Appending an entry with a fresh id adds exactly that id.
pub proof fn lemma_entries_after_push(entries: Seq<PersistedStateEntry>, e: PersistedStateEntry)
    requires
        entry_ids_unique(entries),
        !entries_hold(entries, e.agent_id@),
    ensures
        entry_ids_unique(entries.push(e)),
        entries_view(entries.push(e)) == entries_view(entries).insert(e.agent_id@, e.desired_state),
{
    let s2 = entries.push(e);
    assert forall|a: int, b: int| 0 <= a < b < s2.len() implies (#[trigger] s2[a]).agent_id@ != (#[trigger] s2[b]).agent_id@ by {
        if b < entries.len() {
            assert(entries[a].agent_id@ != entries[b].agent_id@);
        } else {
            assert(s2[a] == entries[a]);
        }
    }
    lemma_entry_index(s2, entries.len() as int);
    assert forall|id: Seq<char>| #[trigger] entries_hold(s2, id) == (entries_hold(entries, id) || id == e.agent_id@) by {
        if entries_hold(entries, id) {
            let k = entry_index(entries, id);
            assert(s2[k].agent_id@ == id);
        }
        if entries_hold(s2, id) && id != e.agent_id@ {
            let k = entry_index(s2, id);
            assert(entries[k].agent_id@ == id);
        }
    }
    assert forall|id: Seq<char>| #[trigger] entries_hold(s2, id) && id != e.agent_id@ implies
        entries_view(s2)[id] == entries_view(entries)[id] by {
        let k = entry_index(entries, id);
        assert(s2[k].agent_id@ == id);
        lemma_entry_index(entries, k);
        lemma_entry_index(s2, k);
    }
    assert(entries_view(s2) =~= entries_view(entries).insert(e.agent_id@, e.desired_state));
}

fn find_entry(entries: &Vec<PersistedStateEntry>, agent_id: &String) -> (r: Option<usize>)
    ensures
        match r {
            Some(i) => i < entries@.len() && entries@[i as int].agent_id@ == agent_id@,
            None => !entries_hold(entries@, agent_id@),
        },
{
    let mut i: usize = 0;
    while i < entries.len()
        invariant
            i <= entries@.len(),
            forall|j: int| 0 <= j < i ==> (#[trigger] entries@[j]).agent_id@ != agent_id@,
        decreases entries@.len() - i,
    {
        if entries[i].agent_id == *agent_id {
            return Some(i);
        }
        i = i + 1;
    }
    None
}

/// The assignments of a sequence of entries, in order.
pub open spec fn entry_pairs(entries: Seq<PersistedStateEntry>) -> Seq<(Seq<char>, AgentDesiredState)> {
    entries.map_values(|e: PersistedStateEntry| (e.agent_id@, e.desired_state))
}

/// The map that results from putting the assignments `ps` in order into `m`.
pub open spec fn put_all(
    m: Map<Seq<char>, AgentDesiredState>,
    ps: Seq<(Seq<char>, AgentDesiredState)>,
) -> Map<Seq<char>, AgentDesiredState>
    decreases ps.len(),
{
    if ps.len() == 0 {
        m
    } else {
        put_all(m, ps.drop_last()).insert(ps.last().0, ps.last().1)
    }
}

/// Putting the entries of a store one by one into an empty map gives the store's map.
pub proof fn lemma_put_all_entries(entries: Seq<PersistedStateEntry>)
    requires
        entry_ids_unique(entries),
    ensures
        put_all(Map::empty(), entry_pairs(entries)) == entries_view(entries),
    decreases entries.len(),
{
    if entries.len() == 0 {
        assert(entries_view(entries) =~= Map::empty());
    } else {
        let init = entries.drop_last();
        let e = entries.last();
        assert(init.push(e) =~= entries);
        assert(entry_ids_unique(init)) by {
            assert forall|a: int, b: int| 0 <= a < b < init.len() implies (#[trigger] init[a]).agent_id@ != (#[trigger] init[b]).agent_id@ by {
                assert(entries[a].agent_id@ != entries[b].agent_id@);
            }
        }
        assert(!entries_hold(init, e.agent_id@)) by {
            if entries_hold(init, e.agent_id@) {
                let k = entry_index(init, e.agent_id@);
                assert(entries[k].agent_id@ != entries[entries.len() - 1].agent_id@);
            }
        }
        lemma_put_all_entries(init);
        lemma_entries_after_push(init, e);
        assert(entry_pairs(entries).drop_last() =~= entry_pairs(init));
    }
}

/// Desired-state assignments, keyed by agent id.
///
/// The store is the source of truth for desired state: a `put` is seen by
/// every later `get` of the same id.
pub struct PersistedStateStore {
    entries: Vec<PersistedStateEntry>,
}

impl PersistedStateStore {
    pub closed spec fn wf(&self) -> bool {
        entry_ids_unique(self.entries@)
    }

    /// Each agent id with an assignment, and that assignment.
    pub closed spec fn view(&self) -> Map<Seq<char>, AgentDesiredState> {
        entries_view(self.entries@)
    }

    pub fn new() -> (r: PersistedStateStore)
        ensures
            r.wf(),
            r.view() == Map::<Seq<char>, AgentDesiredState>::empty(),
    {
        let r = PersistedStateStore { entries: Vec::new() };
        assert(r.view() =~= Map::<Seq<char>, AgentDesiredState>::empty());
        r
    }

    /// Records `desired_state` as the assignment of `agent_id`.
    pub fn put(&mut self, agent_id: &String, desired_state: AgentDesiredState)
        requires
            old(self).wf(),
        ensures
            final(self).wf(),
            final(self).view() == old(self).view().insert(agent_id@, desired_state),
    {
        let e = PersistedStateEntry { agent_id: agent_id.clone(), desired_state };
        match find_entry(&self.entries, agent_id) {
            Some(i) => {
                proof {
                    lemma_entries_after_replace(self.entries@, i as int, e);
                }
                self.entries.set(i, e);
            },
            None => {
                proof {
                    lemma_entries_after_push(self.entries@, e);
                }
                self.entries.push(e);
            },
        }
    }

    /// The text that a durable store writes: one line per assignment.
    pub closed spec fn text_spec(&self) -> Seq<char> {
        encode_lines(entry_pairs(self.entries@))
    }

    /// The store's contents as text, for a durable backing to write.
    pub fn to_text(&self) -> (r: Vec<char>)
        ensures
            r@ == self.text_spec(),
    {
        let mut out: Vec<char> = Vec::new();
        let mut i: usize = 0;
        while i < self.entries.len()
            invariant
                i <= self.entries@.len(),
                out@ == encode_lines(entry_pairs(self.entries@.take(i as int))),
            decreases self.entries@.len() - i,
        {
            let e = &self.entries[i];
            proof {
                lemma_encode_push(entry_pairs(self.entries@.take(i as int)), (e.agent_id@, e.desired_state));
                assert(entry_pairs(self.entries@.take(i + 1)) =~= entry_pairs(self.entries@.take(i as int)).push(
                    (e.agent_id@, e.desired_state),
                ));
            }
            write_line(&mut out, e.agent_id.as_str(), e.desired_state);
            i = i + 1;
        }
        assert(self.entries@.take(i as int) =~= self.entries@);
        out
    }

    /// A store holding what a text of assignments says, the later of two
    /// assignments of one id winning; `None` where it is no such text.
    pub fn from_text(text: &Vec<char>) -> (r: Option<PersistedStateStore>)
        ensures
            match r {
                Some(st) => st.wf() && match decode_lines(text@) {
                    Some(ps) => st.view() == put_all(Map::empty(), ps),
                    None => false,
                },
                None => decode_lines(text@) is None,
            },
    {
        match decode_assignments(text) {
            None => None,
            Some(pairs) => {
                let mut st = PersistedStateStore::new();
                let mut i: usize = 0;
                while i < pairs.len()
                    invariant
                        i <= pairs@.len(),
                        st.wf(),
                        st.view() == put_all(Map::empty(), pairs_view(pairs@).take(i as int)),
                    decreases pairs@.len() - i,
                {
                    proof {
                        assert(pairs_view(pairs@).take(i + 1).drop_last() =~= pairs_view(pairs@).take(i as int));
                    }
                    st.put(&pairs[i].0, pairs[i].1);
                    i = i + 1;
                }
                assert(pairs_view(pairs@).take(i as int) =~= pairs_view(pairs@));
                Some(st)
            },
        }
    }

    /// The assignment of `agent_id`, if one was ever recorded.
    pub fn get(&self, agent_id: &String) -> (r: Option<AgentDesiredState>)
        requires
            self.wf(),
        ensures
            match r {
                Some(d) => self.view().contains_key(agent_id@) && d == self.view()[agent_id@],
                None => !self.view().contains_key(agent_id@),
            },
    {
        match find_entry(&self.entries, agent_id) {
            Some(i) => {
                proof {
                    lemma_entry_index(self.entries@, i as int);
                }
                Some(self.entries[i].desired_state)
            },
            None => None,
        }
    }
}

/// What a store writes, read back into a fresh store, gives the same
/// assignments: a durable store keeps its desired states across a restart.
pub proof fn lemma_text_round_trip(store: PersistedStateStore)
    requires
        store.wf(),
    ensures
        match decode_lines(store.text_spec()) {
            Some(ps) => put_all(Map::empty(), ps) == store.view(),
            None => false,
        },
{
    lemma_decode_encode(entry_pairs(store.entries@));
    lemma_put_all_entries(store.entries@);
}

} // verus!

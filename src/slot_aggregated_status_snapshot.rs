use vstd::prelude::*;

verus! {

/// What an agent reports about its slots: capacity, load and freshness.
///
/// A snapshot is a value: a new report always yields a new snapshot.
#[derive(Clone, Copy, Debug, PartialEq, Eq, Structural)]
pub struct SlotAggregatedStatusSnapshot {
    /// Number of slots the agent declares it can run at once.
    pub total_slots: u64,
    /// Number of slots currently running a request.
    pub busy_slots: u64,
    /// Number of requests waiting for a free slot.
    pub queued_requests: u64,
    /// When the agent produced this report, in milliseconds since the epoch.
    pub last_update_millis: u64,
}

impl SlotAggregatedStatusSnapshot {
    /// A report is trustworthy when it does not claim more busy slots than it has.
    pub open spec fn is_consistent_spec(&self) -> bool {
        self.busy_slots <= self.total_slots
    }

    pub fn is_consistent(&self) -> (r: bool)
        ensures
            r == self.is_consistent_spec(),
    {
        self.busy_slots <= self.total_slots
    }

    pub fn is_idle(&self) -> (r: bool)
        ensures
            r == (self.busy_slots == 0),
    {
        self.busy_slots == 0
    }
}

} // verus!

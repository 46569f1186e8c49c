//! The leaders scheduled just before and just after a block.
use crate::schedule::LeaderScheduleIndex;
use vstd::prelude::*;

verus! {

/// The slots around a block and who leads them; `None` is an unknown leader.
pub struct Neighbors {
    pub previous_slot: u64,
    pub previous_leader: Option<String>,
    pub next_slot: u64,
    pub next_leader: Option<String>,
}

/// The slot before `first`, saturating at zero.
pub open spec fn previous_of(first: u64) -> u64 {
    if first == 0 {
        0
    } else {
        (first - 1) as u64
    }
}

/// Looks up the leaders of the slots around the block that runs from
/// `first_slot` to `last_slot`. A slot with no leader gives `None`.
pub fn resolve_neighbors(index: &LeaderScheduleIndex, first_slot: u64, last_slot: u64) -> (r: Neighbors)
    requires
        last_slot < u64::MAX,
    ensures
        r.previous_slot == previous_of(first_slot),
        r.next_slot == last_slot + 1,
        r.previous_leader == index.leader_map().get(r.previous_slot),
        r.next_leader == index.leader_map().get(r.next_slot),
{
    let previous_slot = first_slot.saturating_sub(1);
    let next_slot = last_slot + 1;
    Neighbors {
        previous_slot,
        previous_leader: index.leader_at(previous_slot),
        next_slot,
        next_leader: index.leader_at(next_slot),
    }
}

} // verus!

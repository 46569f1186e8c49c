//! The epoch's leader schedule in absolute slots: the target validator's
//! slots and, for neighbor lookups, the leader of every scheduled slot.
use std::collections::HashMap;
use vstd::prelude::*;

verus! {

broadcast use vstd::std_specs::hash::group_hash_axioms;

/// One identity of the leader schedule and the slots of the epoch, counted
/// from its first slot, that it leads.
pub struct ScheduleEntry {
    pub identity: String,
    pub slots: Vec<u64>,
}

/// Every relative slot of `schedule`, moved to `first`, still fits in a `u64`.
pub open spec fn fits_from(schedule: Seq<ScheduleEntry>, first: u64) -> bool {
    forall|i: int, j: int|
        0 <= i < schedule.len() && 0 <= j < schedule[i].slots@.len() ==> first
            + #[trigger] schedule[i].slots@[j] <= u64::MAX
}

/// The absolute slots of the relative slots `rel` in an epoch starting at `first`.
pub open spec fn absolute_of(first: u64, rel: Seq<u64>) -> Seq<u64> {
    rel.map_values(|x: u64| (first + x) as u64)
}

/// `s` is in ascending order.
pub open spec fn is_sorted(s: Seq<u64>) -> bool {
    forall|a: int, b: int| 0 <= a < b < s.len() ==> s[a] <= s[b]
}

/// `schedule` assigns the absolute slot `slot` to identity `id`.
pub open spec fn scheduled_at(schedule: Seq<ScheduleEntry>, first: u64, slot: u64, id: Seq<char>) -> bool {
    exists|i: int, j: int|
        0 <= i < schedule.len() && 0 <= j < schedule[i].slots@.len() && schedule[i].identity@ == id
            && first + #[trigger] schedule[i].slots@[j] == slot
}

/// Entry `i` is the first one of `schedule` for identity `id`.
pub open spec fn is_first_entry(schedule: Seq<ScheduleEntry>, id: Seq<char>, i: int) -> bool {
    &&& 0 <= i < schedule.len()
    &&& schedule[i].identity@ == id
    &&& forall|k: int| 0 <= k < i ==> (#[trigger] schedule[k]).identity@ != id
}

/// `schedule` has an entry for identity `id`.
pub open spec fn is_scheduled(schedule: Seq<ScheduleEntry>, id: Seq<char>) -> bool {
    exists|i: int| 0 <= i < schedule.len() && (#[trigger] schedule[i]).identity@ == id
}

/// Relies on `slice::sort_unstable`: the slots end up in ascending order and
/// none is added or lost.
#[verifier::external_body]
fn sort_slots(v: &mut Vec<u64>)
    ensures
        final(v)@.to_multiset() == old(v)@.to_multiset(),
        is_sorted(final(v)@),
{
    v.sort_unstable();
}

/// Moves relative slots to absolute ones.
pub fn to_absolute(first: u64, rel: &Vec<u64>) -> (r: Vec<u64>)
    requires
        forall|j: int| 0 <= j < rel@.len() ==> first + #[trigger] rel@[j] <= u64::MAX,
    ensures
        r@ == absolute_of(first, rel@),
{
    let mut r: Vec<u64> = Vec::new();
    let mut j: usize = 0;
    while j < rel.len()
        invariant
            j <= rel.len(),
            forall|k: int| 0 <= k < rel@.len() ==> first + #[trigger] rel@[k] <= u64::MAX,
            r@ == absolute_of(first, rel@.subrange(0, j as int)),
        decreases rel.len() - j,
    {
        proof {
            assert(rel@.subrange(0, j + 1) == rel@.subrange(0, j as int).push(rel@[j as int]));
        }
        r.push(first + rel[j]);
        j = j + 1;
    }
    proof {
        assert(rel@.subrange(0, rel.len() as int) == rel@);
    }
    r
}

/// The once-built schedule of one epoch, seen from one target validator.
pub struct LeaderScheduleIndex {
    target_slots: Vec<u64>,
    leaders: HashMap<u64, String>,
}

impl LeaderScheduleIndex {
    /// The target validator's absolute slots, ascending.
    pub closed spec fn slots(&self) -> Seq<u64> {
        self.target_slots@
    }

    /// Absolute slot to the identity that leads it.
    pub closed spec fn leader_map(&self) -> Map<u64, String> {
        self.leaders@
    }

    /// The index was built from `schedule`, an epoch starting at `first`, for `target`.
    pub open spec fn built_from(&self, schedule: Seq<ScheduleEntry>, first: u64, target: Seq<char>) -> bool {
        &&& is_sorted(self.slots())
        &&& exists|i: int|
            is_first_entry(schedule, target, i) && #[trigger] self.slots().to_multiset()
                == absolute_of(first, schedule[i].slots@).to_multiset()
        &&& forall|s: u64|
            #[trigger] self.leader_map().contains_key(s) <==> exists|id: Seq<char>|
                scheduled_at(schedule, first, s, id)
        &&& forall|s: u64|
            #[trigger] self.leader_map().contains_key(s) ==> scheduled_at(
                schedule,
                first,
                s,
                self.leader_map()[s]@,
            )
    }

    /// Builds the index of `schedule` for the epoch starting at `first_slot`;
    /// `None` when `target` has no entry in the schedule.
    pub fn new(schedule: &Vec<ScheduleEntry>, first_slot: u64, target: &String) -> (r: Option<Self>)
        requires
            fits_from(schedule@, first_slot),
        ensures
            r.is_none() <==> !is_scheduled(schedule@, target@),
            r matches Some(x) ==> x.built_from(schedule@, first_slot, target@),
    {
        let n = schedule.len();
        let mut t: usize = 0;
        while t < n
            invariant
                n == schedule.len(),
                t <= n,
                forall|k: int| 0 <= k < t ==> (#[trigger] schedule@[k]).identity@ != target@,
            ensures
                t <= n,
                t < n ==> schedule@[t as int].identity@ == target@,
                forall|k: int| 0 <= k < t ==> (#[trigger] schedule@[k]).identity@ != target@,
            decreases n - t,
        {
            if schedule[t].identity == *target {
                break;
            }
            t = t + 1;
        }
        if t == n {
            return None;
        }
        let ghost ti = t as int;
        assert(is_first_entry(schedule@, target@, ti));
        let mut target_slots = to_absolute(first_slot, &schedule[t].slots);
        let ghost unsorted = target_slots@;
        sort_slots(&mut target_slots);
        let leaders = Self::leader_index(schedule, first_slot);
        let r = LeaderScheduleIndex { target_slots, leaders };
        assert(r.slots().to_multiset() == absolute_of(first_slot, schedule@[ti].slots@).to_multiset());
        Some(r)
    }

    /// Every scheduled absolute slot mapped to its leader.
    fn leader_index(schedule: &Vec<ScheduleEntry>, first_slot: u64) -> (m: HashMap<u64, String>)
        requires
            fits_from(schedule@, first_slot),
        ensures
            forall|s: u64|
                #[trigger] m@.contains_key(s) <==> exists|id: Seq<char>|
                    scheduled_at(schedule@, first_slot, s, id),
            forall|s: u64| #[trigger]
                m@.contains_key(s) ==> scheduled_at(schedule@, first_slot, s, m@[s]@),
    {
        let mut m: HashMap<u64, String> = HashMap::new();
        let n = schedule.len();
        let mut i: usize = 0;
        while i < n
            invariant
                n == schedule.len(),
                i <= n,
                fits_from(schedule@, first_slot),
                forall|a: int, b: int|
                    0 <= a < i && 0 <= b < schedule@[a].slots@.len() ==> m@.contains_key(
                        (first_slot + #[trigger] schedule@[a].slots@[b]) as u64,
                    ),
                forall|s: u64| #[trigger]
                    m@.contains_key(s) ==> scheduled_at(schedule@, first_slot, s, m@[s]@),
            decreases n - i,
        {
            let entry = &schedule[i];
            let mut j: usize = 0;
            while j < entry.slots.len()
                invariant
                    n == schedule.len(),
                    i < n,
                    *entry == schedule@[i as int],
                    j <= entry.slots@.len(),
                    fits_from(schedule@, first_slot),
                    forall|a: int, b: int|
                        0 <= a < i && 0 <= b < schedule@[a].slots@.len() ==> m@.contains_key(
                            (first_slot + #[trigger] schedule@[a].slots@[b]) as u64,
                        ),
                    forall|b: int|
                        0 <= b < j ==> m@.contains_key(
                            (first_slot + #[trigger] entry.slots@[b]) as u64,
                        ),
                    forall|s: u64| #[trigger]
                        m@.contains_key(s) ==> scheduled_at(schedule@, first_slot, s, m@[s]@),
                decreases entry.slots.len() - j,
            {
                assert(first_slot + schedule@[i as int].slots@[j as int] <= u64::MAX);
                let slot: u64 = first_slot + entry.slots[j];
                m.insert(slot, entry.identity.clone());
                assert(scheduled_at(schedule@, first_slot, slot, entry.identity@));
                j = j + 1;
            }
            i = i + 1;
        }
        proof {
            assert forall|s: u64| #[trigger] m@.contains_key(s) <==> exists|id: Seq<char>|
                scheduled_at(schedule@, first_slot, s, id) by {
                if m@.contains_key(s) {
                    assert(scheduled_at(schedule@, first_slot, s, m@[s]@));
                }
                if exists|id: Seq<char>| scheduled_at(schedule@, first_slot, s, id) {
                    let id = choose|id: Seq<char>| scheduled_at(schedule@, first_slot, s, id);
                    let (a, b) = choose|a: int, b: int|
                        0 <= a < schedule@.len() && 0 <= b < schedule@[a].slots@.len()
                            && schedule@[a].identity@ == id && first_slot
                            + #[trigger] schedule@[a].slots@[b] == s;
                    assert(m@.contains_key((first_slot + schedule@[a].slots@[b]) as u64));
                }
            }
        }
        m
    }

    /// The target validator's absolute slots, ascending.
    pub fn target_slots(&self) -> (r: &Vec<u64>)
        ensures
            r@ == self.slots(),
    {
        &self.target_slots
    }

    /// The identity scheduled at absolute slot `slot`, if any.
    pub fn leader_at(&self, slot: u64) -> (r: Option<String>)
        ensures
            r == self.leader_map().get(slot),
    {
        match self.leaders.get(&slot) {
            Some(id) => Some(id.clone()),
            None => None,
        }
    }
}

} // verus!

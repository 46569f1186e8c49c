//! Decisions on the skip list and the latency leaderboard for a block's
//! previous leader.
use vstd::prelude::*;

verus! {

/// One record of the latency leaderboard; a field is `None` where the
/// service left it out or gave something else than expected.
pub struct LatencyRecord {
    pub node_address: Option<String>,
    pub total_latency: Option<u64>,
    pub voted_slots: Option<u64>,
}

/// Where an identity stands on the leaderboard. Its average latency is
/// `total_latency / voted_slots`.
pub struct LatencyStanding {
    pub rank: usize,
    pub total_latency: u64,
    pub voted_slots: u64,
}

/// `entry` holds exactly the identity `id`, character by character.
pub open spec fn names(entry: Option<String>, id: Seq<char>) -> bool {
    entry matches Some(v) && v@ == id
}

/// `validators` lists identity `id`.
pub open spec fn lists(validators: Seq<Option<String>>, id: Seq<char>) -> bool {
    exists|i: int| 0 <= i < validators.len() && names(#[trigger] validators[i], id)
}

/// Whether `identity` is on the skip list. A list the service did not send
/// (`None`) counts as not listing it.
pub fn is_on_skip_list(validators: &Option<Vec<Option<String>>>, identity: &String) -> (r: bool)
    ensures
        r == match validators {
            Some(v) => lists(v@, identity@),
            None => false,
        },
{
    match validators {
        None => false,
        Some(v) => list_holds(v, identity),
    }
}

fn list_holds(v: &Vec<Option<String>>, identity: &String) -> (r: bool)
    ensures
        r == lists(v@, identity@),
{
    let mut i: usize = 0;
    while i < v.len()
        invariant
            i <= v.len(),
            forall|k: int| 0 <= k < i ==> !names(#[trigger] v@[k], identity@),
        decreases v.len() - i,
    {
        if let Some(x) = &v[i] {
            if *x == *identity {
                assert(names(v@[i as int], identity@));
                return true;
            }
        }
        i = i + 1;
    }
    false
}

/// Record `r` belongs to identity `id`.
pub open spec fn is_record_of(r: LatencyRecord, id: Seq<char>) -> bool {
    names(r.node_address, id)
}

/// Record `i` is the first one of `records` that belongs to `id`.
pub open spec fn is_first_record_of(records: Seq<LatencyRecord>, id: Seq<char>, i: int) -> bool {
    &&& 0 <= i < records.len()
    &&& is_record_of(records[i], id)
    &&& forall|k: int| 0 <= k < i ==> !is_record_of(#[trigger] records[k], id)
}

/// The standing read from record `i`, when it has both counts.
pub open spec fn standing_at(records: Seq<LatencyRecord>, i: int) -> Option<LatencyStanding> {
    match (records[i].total_latency, records[i].voted_slots) {
        (Some(t), Some(v)) => Some(LatencyStanding { rank: (i + 1) as usize, total_latency: t, voted_slots: v }),
        _ => None,
    }
}

/// The standing of `identity`: its rank is one more than the position of the
/// first record that belongs to it. `None` when no record belongs to it or
/// that record lacks a count.
pub fn latency_standing(records: &Vec<LatencyRecord>, identity: &String) -> (r: Option<LatencyStanding>)
    ensures
        (forall|i: int| 0 <= i < records@.len() ==> !is_record_of(#[trigger] records@[i], identity@))
            ==> r is None,
        forall|i: int| #[trigger] is_first_record_of(records@, identity@, i) ==> r == standing_at(records@, i),
{
    let mut i: usize = 0;
    while i < records.len()
        invariant
            i <= records.len(),
            forall|k: int| 0 <= k < i ==> !is_record_of(#[trigger] records@[k], identity@),
        decreases records.len() - i,
    {
        let rec = &records[i];
        let mine = match &rec.node_address {
            Some(a) => *a == *identity,
            None => false,
        };
        if mine {
            assert(is_first_record_of(records@, identity@, i as int));
            assert forall|j: int| #[trigger] is_first_record_of(records@, identity@, j) implies j == i by {
                if j < i {
                } else if j > i {
                    assert(!is_record_of(records@[i as int], identity@));
                }
            }
            return match (rec.total_latency, rec.voted_slots) {
                (Some(t), Some(v)) => Some(LatencyStanding { rank: i + 1, total_latency: t, voted_slots: v }),
                _ => None,
            };
        }
        i = i + 1;
    }
    None
}

/// What is said of a block's previous leader.
pub enum PreviousLeaderNote {
    /// No leader is scheduled at the previous slot.
    Unknown,
    /// The leader, not on the skip list.
    Plain(String),
    /// The leader is on the skip list; its leaderboard standing when known.
    OnSkipList(String, Option<LatencyStanding>),
}

/// The next thing to do while describing a block's previous leader.
pub enum EnrichAction {
    /// Fetch the skip list, then call `after_skip_list` with this identity.
    FetchSkipList(String),
    /// Fetch the leaderboard, then call `after_leaderboard` with this identity.
    FetchLeaderboard(String),
    /// Nothing more to fetch.
    Report(PreviousLeaderNote),
}

/// First step: the skip list is fetched only when a previous leader is known.
pub fn begin_enrichment(previous_leader: Option<String>) -> (r: EnrichAction)
    ensures
        r == match previous_leader {
            None => EnrichAction::Report(PreviousLeaderNote::Unknown),
            Some(id) => EnrichAction::FetchSkipList(id),
        },
{
    match previous_leader {
        None => EnrichAction::Report(PreviousLeaderNote::Unknown),
        Some(id) => EnrichAction::FetchSkipList(id),
    }
}

/// Second step, with the skip list read: the leaderboard is fetched only for
/// a listed identity.
pub fn after_skip_list(identity: String, validators: &Option<Vec<Option<String>>>) -> (r: EnrichAction)
    ensures
        (validators matches Some(v) && lists(v@, identity@)) ==> r == EnrichAction::FetchLeaderboard(identity),
        !(validators matches Some(v) && lists(v@, identity@)) ==> r == EnrichAction::Report(
            PreviousLeaderNote::Plain(identity),
        ),
{
    if is_on_skip_list(validators, &identity) {
        EnrichAction::FetchLeaderboard(identity)
    } else {
        EnrichAction::Report(PreviousLeaderNote::Plain(identity))
    }
}

/// Last step, with the leaderboard read: the listed identity, with its
/// standing when the records give one.
pub fn after_leaderboard(identity: String, records: &Option<Vec<LatencyRecord>>) -> (r: PreviousLeaderNote)
    ensures
        records is None ==> r == PreviousLeaderNote::OnSkipList(identity, None),
        records matches Some(rs) ==> (r matches PreviousLeaderNote::OnSkipList(id, st) && id == identity
            && ((forall|i: int| 0 <= i < rs@.len() ==> !is_record_of(#[trigger] rs@[i], identity@)) ==> st is None)
            && forall|i: int| #[trigger] is_first_record_of(rs@, identity@, i) ==> st == standing_at(rs@, i)),
{
    match records {
        None => PreviousLeaderNote::OnSkipList(identity, None),
        Some(rs) => {
            let st = latency_standing(rs, &identity);
            PreviousLeaderNote::OnSkipList(identity, st)
        },
    }
}

} // verus!

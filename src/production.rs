//! Whether each checked slot of a block was produced, and by whom.
use vstd::prelude::*;

verus! {

/// Outcome of checking one slot: exactly one of these holds.
pub enum SlotStatus {
    /// A block exists and the target validator produced it.
    ProducedByTarget,
    /// A block exists and was attributed to another identity.
    ProducedByOther(String),
    /// No block exists, or no producer could be resolved for it.
    NotProduced,
}

/// A slot of the target validator that it did not produce; `producer` is the
/// identity that did, when one is known.
pub struct NonProducedSlot {
    pub slot: u64,
    pub producer: Option<String>,
}

/// The status of a slot from what the node reported: whether a block exists
/// there and, if it does, the leader it was attributed to.
pub open spec fn status_of(block_exists: bool, leader: Option<String>, target: Seq<char>) -> SlotStatus {
    if !block_exists {
        SlotStatus::NotProduced
    } else {
        match leader {
            None => SlotStatus::NotProduced,
            Some(l) => if l@ == target {
                SlotStatus::ProducedByTarget
            } else {
                SlotStatus::ProducedByOther(l)
            },
        }
    }
}

/// The report row of a slot with status `status`, if it gets one.
pub open spec fn row_of(slot: u64, status: SlotStatus) -> Option<NonProducedSlot> {
    match status {
        SlotStatus::ProducedByTarget => None,
        SlotStatus::ProducedByOther(id) => Some(NonProducedSlot { slot, producer: Some(id) }),
        SlotStatus::NotProduced => Some(NonProducedSlot { slot, producer: None }),
    }
}

/// A slot later than the chain's current slot lies in the future and is not checked.
pub open spec fn is_checkable(slot: u64, current_slot: u64) -> bool {
    slot <= current_slot
}

/// Classifies one slot of the target validator.
pub fn classify_slot(block_exists: bool, leader: Option<String>, target: &String) -> (r: SlotStatus)
    ensures
        r == status_of(block_exists, leader, target@),
{
    if !block_exists {
        return SlotStatus::NotProduced;
    }
    match leader {
        None => SlotStatus::NotProduced,
        Some(l) => {
            if l == *target {
                SlotStatus::ProducedByTarget
            } else {
                SlotStatus::ProducedByOther(l)
            }
        },
    }
}

/// The slots of `block` that can be checked now, in order: those not later
/// than `current_slot`.
pub fn slots_to_check(block: &Vec<u64>, current_slot: u64) -> (r: Vec<u64>)
    ensures
        r@ == block@.filter(|s: u64| is_checkable(s, current_slot)),
        forall|k: int| 0 <= k < r@.len() ==> #[trigger] r@[k] <= current_slot,
{
    let mut r: Vec<u64> = Vec::new();
    let mut i: usize = 0;
    while i < block.len()
        invariant
            i <= block.len(),
            r@ == block@.subrange(0, i as int).filter(|s: u64| is_checkable(s, current_slot)),
        decreases block.len() - i,
    {
        let ghost pre = block@.subrange(0, i as int);
        proof {
            assert(block@.subrange(0, i + 1).drop_last() == pre);
            reveal(Seq::filter);
        }
        if block[i] <= current_slot {
            r.push(block[i]);
        }
        i = i + 1;
    }
    proof {
        assert(block@.subrange(0, block.len() as int) == block@);
        block@.lemma_filter_len(|s: u64| is_checkable(s, current_slot));
        assert forall|k: int| 0 <= k < r@.len() implies #[trigger] r@[k] <= current_slot by {
            block@.lemma_filter_pred(|s: u64| is_checkable(s, current_slot), k);
        }
    }
    r
}

/// Records the outcome of one checked slot: a slot the target did not produce
/// gets a row. Returns whether to pause before the next request, which is so
/// exactly when a row was added.
pub fn record_slot(rows: &mut Vec<NonProducedSlot>, slot: u64, status: SlotStatus) -> (pause: bool)
    ensures
        pause <==> row_of(slot, status) is Some,
        row_of(slot, status) matches Some(row) ==> final(rows)@ == old(rows)@.push(row),
        row_of(slot, status) is None ==> final(rows)@ == old(rows)@,
{
    match status {
        SlotStatus::ProducedByTarget => false,
        SlotStatus::ProducedByOther(id) => {
            rows.push(NonProducedSlot { slot, producer: Some(id) });
            true
        },
        SlotStatus::NotProduced => {
            rows.push(NonProducedSlot { slot, producer: None });
            true
        },
    }
}

/// The check of one block, slot by slot: which slots are still to be checked
/// and the rows of those that the target did not produce.
pub struct BlockScan {
    pending: Vec<u64>,
    pos: usize,
    rows: Vec<NonProducedSlot>,
    current_slot: u64,
}

impl BlockScan {
    /// The slots to check, in order.
    pub closed spec fn to_check(&self) -> Seq<u64> {
        self.pending@
    }

    /// How many of them have been recorded.
    pub closed spec fn position(&self) -> int {
        self.pos as int
    }

    /// The rows so far.
    pub closed spec fn rows_view(&self) -> Seq<NonProducedSlot> {
        self.rows@
    }

    /// The chain's current slot that the scan was made with.
    pub closed spec fn limit(&self) -> u64 {
        self.current_slot
    }

    /// Every row is of a slot that was checked, and none is later than the limit.
    pub open spec fn wf(&self) -> bool {
        &&& 0 <= self.position() <= self.to_check().len()
        &&& forall|k: int| 0 <= k < self.to_check().len() ==> #[trigger] self.to_check()[k] <= self.limit()
        &&& forall|k: int|
            0 <= k < self.rows_view().len() ==> exists|j: int|
                0 <= j < self.position() && self.to_check()[j] == (#[trigger] self.rows_view()[k]).slot
    }

    /// Starts the check of `block` with the chain at `current_slot`.
    pub fn new(block: &Vec<u64>, current_slot: u64) -> (r: Self)
        ensures
            r.wf(),
            r.to_check() == block@.filter(|s: u64| is_checkable(s, current_slot)),
            r.position() == 0,
            r.rows_view().len() == 0,
            r.limit() == current_slot,
    {
        BlockScan { pending: slots_to_check(block, current_slot), pos: 0, rows: Vec::new(), current_slot }
    }

    /// The next slot to check, if any is left.
    pub fn next_slot(&self) -> (r: Option<u64>)
        requires
            self.wf(),
        ensures
            self.position() < self.to_check().len() ==> r == Some(self.to_check()[self.position()]),
            self.position() == self.to_check().len() ==> r is None,
    {
        if self.pos < self.pending.len() {
            Some(self.pending[self.pos])
        } else {
            None
        }
    }

    /// Records the status of the slot that `next_slot` gave. Returns whether
    /// to pause before the next request.
    pub fn record(&mut self, status: SlotStatus) -> (pause: bool)
        requires
            old(self).wf(),
            old(self).position() < old(self).to_check().len(),
        ensures
            final(self).wf(),
            final(self).to_check() == old(self).to_check(),
            final(self).limit() == old(self).limit(),
            final(self).position() == old(self).position() + 1,
            pause <==> row_of(old(self).to_check()[old(self).position()], status) is Some,
            row_of(old(self).to_check()[old(self).position()], status) matches Some(row)
                ==> final(self).rows_view() == old(self).rows_view().push(row),
            row_of(old(self).to_check()[old(self).position()], status) is None
                ==> final(self).rows_view() == old(self).rows_view(),
    {
        let slot = self.pending[self.pos];
        let n: usize = self.pending.len();
        let ghost before = self.rows_view();
        let ghost pos0 = self.position();
        assert(forall|k: int| 0 <= k < before.len() ==> exists|j: int|
            0 <= j < pos0 && self.to_check()[j] == (#[trigger] before[k]).slot);
        let pause = record_slot(&mut self.rows, slot, status);
        assert(self.pos < n);
        self.pos = self.pos + 1;
        proof {
            assert forall|k: int| 0 <= k < self.rows_view().len() implies exists|j: int|
                0 <= j < self.position() && self.to_check()[j] == (
                #[trigger] self.rows_view()[k]).slot by {
                if k < before.len() {
                    assert(self.rows_view()[k] == before[k]);
                    let j = choose|j: int| 0 <= j < pos0 && self.to_check()[j] == before[k].slot;
                    assert(0 <= j < self.position() && self.to_check()[j] == self.rows_view()[k].slot);
                } else {
                    assert(self.to_check()[self.position() - 1] == self.rows_view()[k].slot);
                }
            }
            assert(self.to_check() == old(self).to_check());
            assert(self.limit() == old(self).limit());
        }
        pause
    }

    /// Takes whether a block exists at the slot that `next_slot` gave. With no
    /// block the slot is recorded as not produced and the pause decision is
    /// returned; with one, `None` asks to look up its leader and to `record`
    /// the classification.
    pub fn record_existence(&mut self, block_exists: bool) -> (r: Option<bool>)
        requires
            old(self).wf(),
            old(self).position() < old(self).to_check().len(),
        ensures
            final(self).wf(),
            block_exists ==> r is None && *final(self) == *old(self),
            !block_exists ==> r == Some(true) && final(self).to_check() == old(self).to_check()
                && final(self).limit() == old(self).limit() && final(self).position() == old(
                self,
            ).position() + 1 && final(self).rows_view() == old(self).rows_view().push(
                NonProducedSlot { slot: old(self).to_check()[old(self).position()], producer: None },
            ),
    {
        if block_exists {
            None
        } else {
            Some(self.record(SlotStatus::NotProduced))
        }
    }

    /// Whether the block gets a report: so exactly when some slot has a row.
    pub fn has_report(&self) -> (r: bool)
        ensures
            r == (self.rows_view().len() > 0),
    {
        self.rows.len() > 0
    }

    /// The rows of the slots checked so far; none is of a slot later than the limit.
    pub fn rows(&self) -> (r: &Vec<NonProducedSlot>)
        requires
            self.wf(),
        ensures
            r@ == self.rows_view(),
            forall|k: int| 0 <= k < r@.len() ==> (#[trigger] r@[k]).slot <= self.limit(),
    {
        proof {
            assert forall|k: int| 0 <= k < self.rows_view().len() implies (
            #[trigger] self.rows_view()[k]).slot <= self.limit() by {
                let j = choose|j: int|
                    0 <= j < self.position() && self.to_check()[j] == self.rows_view()[k].slot;
                assert(self.to_check()[j] <= self.limit());
            }
        }
        &self.rows
    }
}

} // verus!

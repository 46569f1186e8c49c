//! First absolute slot of a requested epoch.
use vstd::prelude::*;

verus! {

/// What the chain node reports about the epoch it is in.
pub struct EpochInfo {
    pub epoch: u64,
    pub absolute_slot: u64,
    pub slot_index: u64,
    pub slots_in_epoch: u64,
}

impl EpochInfo {
    /// The slot index within the current epoch never exceeds the absolute slot.
    pub open spec fn wf(&self) -> bool {
        self.slot_index <= self.absolute_slot
    }

    /// First absolute slot of the current epoch.
    pub open spec fn current_start(&self) -> int {
        self.absolute_slot - self.slot_index
    }
}

/// First absolute slot of `epoch`: exact for the current epoch; for any other
/// epoch extrapolated with the current slots-per-epoch and clamped at zero.
pub open spec fn first_slot_of_epoch(info: EpochInfo, epoch: u64) -> int {
    if epoch == info.epoch {
        info.current_start()
    } else {
        let f = info.current_start() + (epoch - info.epoch) * info.slots_in_epoch;
        if f < 0 {
            0
        } else {
            f
        }
    }
}

/// Computes `first_slot_of_epoch`; `None` when that slot lies beyond `u64::MAX`.
pub fn epoch_first_slot(info: &EpochInfo, epoch: u64) -> (r: Option<u64>)
    requires
        info.wf(),
    ensures
        match r {
            Some(s) => s == first_slot_of_epoch(*info, epoch),
            None => first_slot_of_epoch(*info, epoch) > u64::MAX,
        },
{
    let start: u64 = info.absolute_slot - info.slot_index;
    if epoch == info.epoch {
        return Some(start);
    }
    let spe: u64 = info.slots_in_epoch;
    let d: u64 = if epoch > info.epoch {
        epoch - info.epoch
    } else {
        info.epoch - epoch
    };
    assert((d as int) * (spe as int) <= (u64::MAX as int) * (u64::MAX as int)) by (nonlinear_arith)
        requires
            d <= u64::MAX,
            spe <= u64::MAX,
    ;
    let span: u128 = (d as u128) * (spe as u128);
    if epoch > info.epoch {
        if span > (u64::MAX - start) as u128 {
            None
        } else {
            Some(start + span as u64)
        }
    } else {
        assert((epoch - info.epoch) * spe == -(d * spe)) by (nonlinear_arith)
            requires
                d == info.epoch - epoch,
        ;
        if span >= start as u128 {
            Some(0)
        } else {
            Some(start - span as u64)
        }
    }
}

/// For every requested epoch, the current one included, the first slot is the
/// current epoch's start moved by whole epochs of the current length, and
/// never negative.
pub proof fn lemma_first_slot_formula(info: EpochInfo, epoch: u64)
    requires
        info.wf(),
    ensures
        first_slot_of_epoch(info, epoch) == if info.current_start() + (epoch - info.epoch)
            * info.slots_in_epoch < 0 {
            0
        } else {
            info.current_start() + (epoch - info.epoch) * info.slots_in_epoch
        },
        first_slot_of_epoch(info, epoch) >= 0,
{
    if epoch == info.epoch {
        assert((epoch - info.epoch) * info.slots_in_epoch == 0);
    }
}

/// For the current epoch the first slot is the absolute slot minus the slot index.
pub proof fn lemma_current_epoch_start(info: EpochInfo)
    requires
        info.wf(),
    ensures
        first_slot_of_epoch(info, info.epoch) == info.absolute_slot - info.slot_index,
        first_slot_of_epoch(info, info.epoch) >= 0,
{
}

/// An epoch so far in the past that the extrapolation would go negative starts at slot 0.
pub proof fn lemma_far_past_epoch_starts_at_zero(info: EpochInfo, epoch: u64)
    requires
        info.wf(),
        epoch < info.epoch,
        (info.epoch - epoch) * info.slots_in_epoch >= info.current_start(),
    ensures
        first_slot_of_epoch(info, epoch) == 0,
{
    assert((epoch - info.epoch) * info.slots_in_epoch == -((info.epoch - epoch) * info.slots_in_epoch))
        by (nonlinear_arith);
}

/// The first slot never decreases as the requested epoch grows.
pub proof fn lemma_first_slot_monotonic(info: EpochInfo, a: u64, b: u64)
    requires
        info.wf(),
        a <= b,
    ensures
        first_slot_of_epoch(info, a) <= first_slot_of_epoch(info, b),
{
    let spe = info.slots_in_epoch;
    assert((a - info.epoch) * spe <= (b - info.epoch) * spe) by (nonlinear_arith)
        requires
            a <= b,
            spe >= 0,
    ;
    if a == info.epoch {
        assert((b - info.epoch) * spe >= 0) by (nonlinear_arith)
            requires
                b >= info.epoch,
                spe >= 0,
        ;
    } else if b == info.epoch {
        assert((a - info.epoch) * spe <= 0) by (nonlinear_arith)
            requires
                a <= info.epoch,
                spe >= 0,
        ;
    }
}

} // verus!

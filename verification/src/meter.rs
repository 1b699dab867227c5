//! The peak meter: one binary32 value that the audio thread writes and a
//! display thread reads, without locks, and the rule by which it falls.
use crate::binary32::Binary32;
use crate::biquad::value_of;
use crate::biquad::ONE_BITS;
use crate::biquad::ZERO_BITS;
use crate::compression::is_pole;
use crate::identities::lemma_complement_in_unit_interval;
use crate::identities::lemma_product_by_zero;
use crate::identities::lemma_product_shrinks;
use crate::identities::lemma_sum_of_zeros;
use crate::identities::lemma_sum_with_zero;
use atomic_float::AtomicF32;
use std::sync::atomic::AtomicU32;
use std::sync::atomic::Ordering;
use std::sync::Arc;
use vstd::prelude::*;

verus! {

#[verifier::external_type_specification]
#[verifier::external_body]
pub struct ExAtomicF32(AtomicF32);

/// A handle to the meter. All handles made by `handle` share one value.
///
/// Every handle can store, at any time and from any thread. No clause of
/// `new`, `read`, `write` or `update` therefore speaks of the value held:
/// between a store and the next load another handle may have stored. What
/// is handed to the cell is stated where it is made: the first value by
/// `silent_meter`, every later one by `decayed_peak`.
pub struct PeakMeter {
    cell: Arc<AtomicF32>,
}

/// `atomic_float::AtomicF32::default`: a new cell. Nothing is claimed of
/// what it holds; the meter stores its first value itself.
#[verifier::external_body]
fn new_cell() -> AtomicF32 {
    AtomicF32::default()
}

/// `atomic_float::AtomicF32::as_atomic_bits`: the cell seen as the atomic
/// integer that holds the pattern of the cell's value. Loads and stores of
/// patterns go through it. Nothing is claimed of the result.
pub assume_specification[ AtomicF32::as_atomic_bits ](cell: &AtomicF32) -> &AtomicU32;

/// `Arc::clone`: another pointer to the same cell. The claim is that the
/// result points to what the argument points to.
#[verifier::external_body]
fn share_cell(cell: &Arc<AtomicF32>) -> (shared: Arc<AtomicF32>)
    ensures
        shared == cell,
{
    Arc::clone(cell)
}

/// The meter's next value: a block peak above the stored value replaces
/// it at once; otherwise the stored value falls towards the block peak,
/// `stored * weight + peak * (1 - weight)`.
pub open spec fn next_meter_value(stored: Binary32, block_peak: Binary32, decay_weight: Binary32)
    -> Binary32 {
    if stored.less(block_peak) {
        block_peak
    } else {
        stored.product(decay_weight).sum(
            block_peak.product(value_of(ONE_BITS).difference(decay_weight)),
        )
    }
}

/// What a meter shows before the first block: silence, the linear
/// amplitude zero.
pub fn silent_meter() -> (v: Binary32)
    ensures
        v.bits == 0,
{
    Binary32::from_bits(ZERO_BITS)
}

/// Computes the meter's next value from the stored one and a block's peak.
pub fn decayed_peak(stored: Binary32, block_peak: Binary32, decay_weight: Binary32) -> (next:
    Binary32)
    ensures
        next == next_meter_value(stored, block_peak, decay_weight),
{
    if block_peak.gt(stored) {
        block_peak
    } else {
        stored.mul(decay_weight).add(
            block_peak.mul(Binary32::from_bits(ONE_BITS).sub(decay_weight)),
        )
    }
}

/// Under silence the meter falls, and never below zero: from a stored value
/// that is finite and not negative, with a weight between zero and one, a
/// silent block leads to the value of `stored * weight`, which is not above
/// the stored value.
pub proof fn lemma_silent_decay(stored: Binary32, decay_weight: Binary32)
    requires
        stored.is_finite(),
        !stored.is_negative(),
        is_pole(decay_weight),
    ensures
        next_meter_value(stored, value_of(ZERO_BITS), decay_weight).same_value(
            stored.product(decay_weight),
        ),
        next_meter_value(stored, value_of(ZERO_BITS), decay_weight).pattern() <= stored.pattern(),
        next_meter_value(stored, value_of(ZERO_BITS), decay_weight).is_finite(),
        !next_meter_value(stored, value_of(ZERO_BITS), decay_weight).is_negative(),
{
    let zero = value_of(ZERO_BITS);
    let one = value_of(ONE_BITS);
    let fallen = stored.product(decay_weight);
    let nothing = zero.product(one.difference(decay_weight));
    lemma_product_shrinks(stored, decay_weight);
    lemma_complement_in_unit_interval(decay_weight);
    lemma_product_by_zero(zero, one.difference(decay_weight));
    lemma_sum_with_zero(fallen, nothing);
    if decay_weight.is_zero() {
        lemma_product_by_zero(decay_weight, stored);
    }
    if fallen.is_zero() {
        lemma_sum_of_zeros(fallen, nothing);
    }
}

/// The meter's value after `n` silent blocks.
pub open spec fn after_silence(stored: Binary32, decay_weight: Binary32, n: nat) -> Binary32
    decreases n,
{
    if n == 0 {
        stored
    } else {
        next_meter_value(
            after_silence(stored, decay_weight, (n - 1) as nat),
            value_of(ZERO_BITS),
            decay_weight,
        )
    }
}

/// However long the silence lasts, the meter stays finite, does not rise
/// above where it started and does not fall below zero.
pub proof fn lemma_silence(stored: Binary32, decay_weight: Binary32, n: nat)
    requires
        stored.is_finite(),
        !stored.is_negative(),
        is_pole(decay_weight),
    ensures
        after_silence(stored, decay_weight, n).is_finite(),
        !after_silence(stored, decay_weight, n).is_negative(),
        after_silence(stored, decay_weight, n).pattern() <= stored.pattern(),
    decreases n,
{
    if n > 0 {
        lemma_silence(stored, decay_weight, (n - 1) as nat);
        lemma_silent_decay(after_silence(stored, decay_weight, (n - 1) as nat), decay_weight);
    }
}

impl PeakMeter {
    /// A meter of its own that shows `initial`.
    pub fn new(initial: Binary32) -> PeakMeter {
        let cell = new_cell();
        cell.as_atomic_bits().store(initial.to_bits(), Ordering::Relaxed);
        PeakMeter { cell: Arc::new(cell) }
    }

    /// Another handle to this meter, for the thread that displays it.
    pub fn handle(&self) -> (shared: PeakMeter)
        ensures
            shared == *self,
    {
        PeakMeter { cell: share_cell(&self.cell) }
    }

    /// The value most recently stored, through any handle.
    pub fn read(&self) -> Binary32 {
        Binary32::from_bits(self.cell.as_atomic_bits().load(Ordering::Relaxed))
    }

    /// Stores a value.
    pub fn write(&self, value: Binary32) {
        self.cell.as_atomic_bits().store(value.to_bits(), Ordering::Relaxed);
    }

    /// Ends a block whose largest output magnitude was `block_peak`: reads
    /// the meter and stores its next value.
    pub fn update(&self, block_peak: Binary32, decay_weight: Binary32) {
        let stored = self.read();
        self.write(decayed_peak(stored, block_peak, decay_weight));
    }
}

} // verus!

//! Pure derivation of schedule parameters from an accepted random result.

use vstd::prelude::*;

verus! {

/// Number of time units (slots) that make up one hour of schedule time.
pub const HOURLY_SLOTS: u16 = 9000;

/// Exclusive upper bound on an acceptable raw random result.
pub const MAX_RAND_VALUE: u8 = 254;

/// Parameters derived from a raw random result at a given slot.
#[derive(PartialEq, Eq, Structural, Clone, Copy, Debug)]
pub struct Derived {
    /// Hours from now until the next update is due; always in `1..=24`.
    pub next_delay_hours: u8,
    /// Absolute slot at and after which the next callback is acceptable.
    pub due_at: u64,
    /// New transfer fee in basis points; a multiple of 1000, at most 6000.
    pub new_fee_bp: u16,
}

/// The delay, in hours, until the next update: `((now_slot + raw) % 24) + 1`.
pub open spec fn spec_next_delay_hours(now_slot: u64, raw_result: u8) -> int {
    ((now_slot + raw_result) % 24) + 1
}

/// The absolute slot at which the next update becomes due.
pub open spec fn spec_due_at(now_slot: u64, raw_result: u8) -> int {
    now_slot + HOURLY_SLOTS * spec_next_delay_hours(now_slot, raw_result)
}

/// The new transfer fee in basis points: `(raw % 7) * 1000`.
pub open spec fn spec_new_fee_bp(raw_result: u8) -> int {
    (raw_result % 7) * 1000
}

/// Derives the next update delay, its due slot and the new fee rate from a
/// raw random result.  Deterministic and side-effect free: equal arguments
/// always yield equal results.
pub fn derive(now_slot: u64, raw_result: u8) -> (d: Derived)
    requires
        raw_result < MAX_RAND_VALUE,
        now_slot + HOURLY_SLOTS * 24 <= u64::MAX,
    ensures
        d.next_delay_hours == spec_next_delay_hours(now_slot, raw_result),
        d.due_at == spec_due_at(now_slot, raw_result),
        d.new_fee_bp == spec_new_fee_bp(raw_result),
        1 <= d.next_delay_hours <= 24,
        d.new_fee_bp <= 6000 && d.new_fee_bp % 1000 == 0,
{
    let next_delay_hours: u8 = (((now_slot + raw_result as u64) % 24) + 1) as u8;
    let due_at: u64 = now_slot + (HOURLY_SLOTS as u64) * (next_delay_hours as u64);
    let new_fee_bp: u16 = (raw_result % 7) as u16 * 1000;
    Derived { next_delay_hours, due_at, new_fee_bp }
}

/// Derivation is deterministic and lands in the documented ranges: for every
/// slot and every raw result below `MAX_RAND_VALUE`, the delay is in
/// `1..=24` and the fee is one of `{0, 1000, ..., 6000}`.
pub proof fn lemma_derivation_bounds(now_slot: u64, raw_result: u8)
    requires
        raw_result < MAX_RAND_VALUE,
    ensures
        1 <= spec_next_delay_hours(now_slot, raw_result) <= 24,
        0 <= spec_new_fee_bp(raw_result) <= 6000,
        spec_new_fee_bp(raw_result) % 1000 == 0,
        spec_due_at(now_slot, raw_result) == now_slot + HOURLY_SLOTS * spec_next_delay_hours(
            now_slot,
            raw_result,
        ),
{
}

} // verus!

//! Epoch alignment: rounding an instant down to the nearest window boundary,
//! measured from a fixed reference, so that window edges are reproducible no
//! matter when resampling starts.

use vstd::arithmetic::div_mod::lemma_div_multiples_vanish;
use vstd::arithmetic::div_mod::lemma_fundamental_div_mod;
use vstd::arithmetic::div_mod::lemma_mod_division_less_than_divisor;
use vstd::arithmetic::mul::lemma_mul_is_commutative;
use vstd::prelude::*;

verus! {

/// `timestamp` rounded down to the nearest multiple of `interval` measured
/// from `reference`.
pub open spec fn spec_align(interval: int, timestamp: int, reference: int) -> int {
    ((timestamp - reference) / interval) * interval + reference
}

/// The reference instant an optional alignment argument stands for: the epoch
/// where none is given.
pub open spec fn spec_reference(alignment_timestamp: Option<i64>) -> int {
    match alignment_timestamp {
        Some(a) => a as int,
        None => 0,
    }
}

/// An aligned instant lies less than one whole interval below the instant it
/// aligns, and never above it.
pub proof fn lemma_align_range(interval: int, timestamp: int, reference: int)
    requires
        1 <= interval,
    ensures
        timestamp - interval < spec_align(interval, timestamp, reference) <= timestamp,
{
    let d = timestamp - reference;
    let q = d / interval;
    lemma_fundamental_div_mod(d, interval);
    lemma_mod_division_less_than_divisor(d, interval);
    lemma_mul_is_commutative(interval, q);
}

/// Alignment is idempotent: aligning an instant that is already aligned to
/// `interval` and `reference` leaves it unchanged.
pub proof fn lemma_align_idempotent(interval: int, timestamp: int, reference: int)
    requires
        1 <= interval,
    ensures
        spec_align(interval, spec_align(interval, timestamp, reference), reference)
            == spec_align(interval, timestamp, reference),
{
    let q = (timestamp - reference) / interval;
    lemma_div_multiples_vanish(q, interval);
    lemma_mul_is_commutative(interval, q);
}

/// Rounds `timestamp` down to the nearest multiple of `interval` measured
/// from `alignment_timestamp`, or from the epoch where none is given.
pub fn epoch_align(interval: i64, timestamp: i64, alignment_timestamp: Option<i64>) -> (aligned:
    i64)
    requires
        1 <= interval,
        i64::MIN <= timestamp - interval + 1,
    ensures
        aligned == spec_align(interval as int, timestamp as int, spec_reference(
            alignment_timestamp,
        )),
{
    let reference: i64 = match alignment_timestamp {
        Some(a) => a,
        None => 0,
    };
    let distance: i128 = timestamp as i128 - reference as i128;
    let wide_interval: i128 = interval as i128;
    proof {
        lemma_fundamental_div_mod(distance as int, wide_interval as int);
        lemma_mod_division_less_than_divisor(distance as int, wide_interval as int);
        lemma_mul_is_commutative(interval as int, distance as int / interval as int);
        lemma_align_range(interval as int, timestamp as int, reference as int);
    }
    let remainder: i128 = match distance.checked_rem_euclid(wide_interval) {
        Some(m) => m,
        None => 0,
    };
    let aligned_wide: i128 = timestamp as i128 - remainder;
    aligned_wide as i64
}

} // verus!

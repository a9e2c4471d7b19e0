//! Saturating tallies.
//!
//! Counts and byte totals are sums of arbitrarily many lengths and
//! sizes, so they are computed with saturation at the type's maximum;
//! the contracts state the exact clamped value.

use vstd::prelude::*;

verus! {

/// A mathematical value clamped to what a `usize` can hold.
pub open spec fn clamp_usize(v: int) -> int {
    if v > usize::MAX {
        usize::MAX as int
    } else {
        v
    }
}

/// A mathematical value clamped to what a `u64` can hold.
pub open spec fn clamp_u64(v: int) -> int {
    if v > u64::MAX {
        u64::MAX as int
    } else {
        v
    }
}

/// Adds two counts, saturating at the maximum.
pub fn sat_add_usize(a: usize, b: usize) -> (r: usize)
    ensures
        r == clamp_usize(a + b),
{
    if b > usize::MAX - a {
        usize::MAX
    } else {
        a + b
    }
}

/// Adds two byte totals, saturating at the maximum.
pub fn sat_add_u64(a: u64, b: u64) -> (r: u64)
    ensures
        r == clamp_u64(a + b),
{
    if b > u64::MAX - a {
        u64::MAX
    } else {
        a + b
    }
}

} // verus!

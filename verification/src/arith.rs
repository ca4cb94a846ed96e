//! Saturating 64-bit arithmetic.
//!
//! Positions and velocities accumulate without any bound stated by the
//! simulation itself, so the additions that move them are saturating:
//! a sum that would leave the `i64` range is clamped to the nearest
//! representable value. This is the one deliberate deviation from plain
//! integer addition, chosen so that every command string and every tick
//! is total.

use vstd::prelude::*;

verus! {

/// The mathematical value `v` clamped into the `i64` range.
pub open spec fn clamp_i64(v: int) -> i64 {
    if v > i64::MAX {
        i64::MAX
    } else if v < i64::MIN {
        i64::MIN
    } else {
        v as i64
    }
}

/// Saturating `a + b`.
pub fn add_clamped(a: i64, b: i64) -> (r: i64)
    ensures
        r == clamp_i64(a + b),
{
    match a.checked_add(b) {
        Some(c) => c,
        None => if b > 0 {
            i64::MAX
        } else {
            i64::MIN
        },
    }
}

/// Saturating `a - b`.
pub fn sub_clamped(a: i64, b: i64) -> (r: i64)
    ensures
        r == clamp_i64(a - b),
{
    match a.checked_sub(b) {
        Some(c) => c,
        None => if b < 0 {
            i64::MAX
        } else {
            i64::MIN
        },
    }
}

} // verus!

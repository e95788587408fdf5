//! Arithmetic on chip amounts (hundredths of a chip, as `i64`).
//!
//! Sums that would leave the `i64` range stick at its bounds.

use vstd::prelude::*;

verus! {

/// `x` held to the `i64` range.
pub open spec fn clamp_i64(x: int) -> int {
    if x > i64::MAX {
        i64::MAX as int
    } else if x < i64::MIN {
        i64::MIN as int
    } else {
        x
    }
}

/// `a + b` held to the `i64` range.
pub open spec fn sum_chips(a: i64, b: i64) -> i64 {
    clamp_i64(a + b) as i64
}

/// `a - b` held to the `i64` range.
pub open spec fn diff_chips(a: i64, b: i64) -> i64 {
    clamp_i64(a - b) as i64
}

/// Sum of two amounts, held to the `i64` range.
pub fn chips_add(a: i64, b: i64) -> (r: i64)
    ensures
        r == clamp_i64(a + b),
        r == sum_chips(a, b),
{
    let s: i128 = a as i128 + b as i128;
    if s > i64::MAX as i128 {
        i64::MAX
    } else if s < i64::MIN as i128 {
        i64::MIN
    } else {
        s as i64
    }
}

/// Difference of two amounts, held to the `i64` range.
pub fn chips_sub(a: i64, b: i64) -> (r: i64)
    ensures
        r == clamp_i64(a - b),
        r == diff_chips(a, b),
{
    let s: i128 = a as i128 - b as i128;
    if s > i64::MAX as i128 {
        i64::MAX
    } else if s < i64::MIN as i128 {
        i64::MIN
    } else {
        s as i64
    }
}

/// The larger of two amounts.
pub fn chips_max(a: i64, b: i64) -> (r: i64)
    ensures
        r == if a >= b { a } else { b },
{
    if a >= b {
        a
    } else {
        b
    }
}

} // verus!

//! The fixed-point number format: units, limits and the two rounding
//! quotients that the signal path uses.

use vstd::prelude::*;

verus! {

/// The raw value that stands for 1.0: a value is counted in billionths.
pub const ONE: i64 = 1_000_000_000;

/// The smallest value a parameter can hold, 0.01.
pub const FLOOR: i64 = 10_000_000;

/// The number of decimal places in a raw value: `ONE` is ten to this power.
pub const DECIMALS: u32 = 9;

/// `v` raised to the parameter floor where it lies below it.
pub open spec fn floored(v: int) -> int {
    if v < FLOOR {
        FLOOR as int
    } else {
        v
    }
}

/// `v` limited to the range of `i64`.
pub open spec fn saturated(v: int) -> int {
    if v < i64::MIN {
        i64::MIN as int
    } else if v > i64::MAX {
        i64::MAX as int
    } else {
        v
    }
}

/// The quotient of `a` by a positive `b`, rounded toward zero.
pub open spec fn quotient_toward_zero(a: int, b: int) -> int {
    if a >= 0 {
        a / b
    } else {
        -((-a) / b)
    }
}

/// The quotient of `a` by a positive `b`, rounded away from zero: the
/// result is zero only where `a` is.
pub open spec fn quotient_away_from_zero(a: int, b: int) -> int {
    if a >= 0 {
        (a + b - 1) / b
    } else {
        -((-a + b - 1) / b)
    }
}

/// Limits a wide intermediate result to the range of `i64`.
pub fn saturate(v: i128) -> (r: i64)
    ensures
        r == saturated(v as int),
{
    if v < i64::MIN as i128 {
        i64::MIN
    } else if v > i64::MAX as i128 {
        i64::MAX
    } else {
        v as i64
    }
}

} // verus!

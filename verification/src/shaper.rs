//! The waveshaper: symmetric clipping at a threshold, normalised so that the
//! clipping level maps to full scale.

use vstd::prelude::*;
use vstd::arithmetic::div_mod::{
    lemma_div_is_ordered,
    lemma_div_by_multiple,
    lemma_div_pos_is_pos,
    lemma_fundamental_div_mod,
    lemma_mod_bound,
};
use crate::scale::{ONE, quotient_toward_zero};

verus! {

/// `x` limited to the band from `-threshold` to `threshold`.
pub open spec fn clipped(x: int, threshold: int) -> int {
    if x >= 0 {
        if x < threshold { x } else { threshold }
    } else {
        if x > -threshold { x } else { -threshold }
    }
}

/// The waveshaper's transfer function: the clipped sample as a fraction of
/// the threshold, in billionths, rounded toward zero.
pub open spec fn shaped(x: int, threshold: int) -> int {
    quotient_toward_zero(clipped(x, threshold) * ONE, threshold)
}

/// The sign of `x` as -1, 0 or 1.
pub open spec fn signum(x: int) -> int {
    if x > 0 { 1 } else if x < 0 { -1 } else { 0 }
}

/// A magnitude no larger than the threshold maps into `0..=ONE`, and the
/// threshold itself maps to `ONE`.
proof fn lemma_normalised_magnitude(m: int, threshold: int)
    requires
        0 <= m <= threshold,
        threshold > 0,
    ensures
        0 <= (m * ONE) / threshold <= ONE,
        m == threshold ==> (m * ONE) / threshold == ONE,
{
    lemma_div_pos_is_pos(m * ONE, threshold);
    lemma_div_is_ordered(m * ONE, threshold * ONE, threshold);
    lemma_div_by_multiple(ONE as int, threshold);
    assert(threshold * ONE == ONE * threshold);
}

/// The waveshaper's output is the ratio of the clipped sample to the
/// threshold, exact to within one billionth on the side of zero.
pub proof fn lemma_shaped_is_the_ratio(x: int, threshold: int)
    requires
        threshold > 0,
    ensures
        ({
            let y = shaped(x, threshold);
            let c = clipped(x, threshold);
            &&& x >= 0 ==> y * threshold <= c * ONE < (y + 1) * threshold
            &&& x < 0 ==> (y - 1) * threshold < c * ONE <= y * threshold
        }),
{
    let m = if x >= 0 { clipped(x, threshold) } else { -clipped(x, threshold) };
    let q = (m * ONE) / threshold;
    lemma_fundamental_div_mod(m * ONE, threshold);
    lemma_mod_bound(m * ONE, threshold);
    assert(threshold * q == q * threshold && (q + 1) * threshold == q * threshold + threshold && (-q
        - 1) * threshold == -(q * threshold) - threshold && (-q) * threshold == -(q * threshold))
        by (nonlinear_arith);
}

/// The waveshaper never leaves full scale, whatever the input, and sits
/// exactly at full scale, with the input's sign, from the threshold upward;
/// below it the output is zero or has the input's sign.
pub proof fn lemma_shaped_clipping_bound(x: int, threshold: int)
    requires
        threshold > 0,
    ensures
        -ONE <= shaped(x, threshold) <= ONE,
        x >= threshold || x <= -threshold ==> shaped(x, threshold) == signum(x) * ONE,
        signum(shaped(x, threshold)) == signum(x) || shaped(x, threshold) == 0,
{
    let m = if x >= 0 { clipped(x, threshold) } else { -clipped(x, threshold) };
    lemma_normalised_magnitude(m, threshold);
}

/// The waveshaper is an odd function of its input.
pub proof fn lemma_shaped_odd(x: int, threshold: int)
    requires
        threshold > 0,
    ensures
        shaped(-x, threshold) == -shaped(x, threshold),
{
    if x == 0 {
        assert(shaped(0, threshold) == 0) by {
            lemma_normalised_magnitude(0, threshold);
        }
    }
}

/// Clips `x` at `threshold` and normalises it by the threshold.
pub fn waveshape(x: i64, threshold: i64) -> (y: i64)
    requires
        threshold > 0,
    ensures
        y == shaped(x as int, threshold as int),
        -ONE <= y <= ONE,
        x >= threshold || -(x as int) >= threshold ==> y == signum(x as int) * ONE,
{
    proof {
        lemma_shaped_clipping_bound(x as int, threshold as int);
    }
    let limit: u128 = threshold as u128;
    if x >= 0 {
        let wide: u128 = x as u128;
        let m: u128 = if wide < limit { wide } else { limit };
        proof {
            lemma_normalised_magnitude(m as int, threshold as int);
        }
        let q: u128 = m * (ONE as u128) / limit;
        q as i64
    } else {
        let wide: u128 = (-(x as i128)) as u128;
        let m: u128 = if wide < limit { wide } else { limit };
        proof {
            lemma_normalised_magnitude(m as int, threshold as int);
        }
        let q: u128 = m * (ONE as u128) / limit;
        -(q as i64)
    }
}

} // verus!

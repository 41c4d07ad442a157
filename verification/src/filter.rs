//! The smoothing filter: two cascaded one-pole low-pass stages. The second
//! stage's state is subtracted from the stages' input, which leaves the part
//! of the signal that changes faster than the stages can follow.

use vstd::prelude::*;
use crate::scale::{ONE, saturate, saturated, quotient_away_from_zero};

verus! {

/// One stage advanced by one sample: the state moves toward `target` by
/// the fraction `cutoff` of its distance from it. The move is rounded away
/// from zero, so a stage that has not reached its target always moves.
pub open spec fn smoothed(state: int, target: int, cutoff: int) -> int {
    saturated(state + quotient_away_from_zero(cutoff * (target - state), ONE as int))
}

/// The running state of the two stages.
#[derive(Clone, Copy, Debug)]
pub struct Cascade {
    pub first: i64,
    pub second: i64,
}

/// The state of the two stages as mathematical integers.
pub struct Stages {
    pub first: int,
    pub second: int,
}

impl View for Cascade {
    type V = Stages;

    open spec fn view(&self) -> Stages {
        Stages { first: self.first as int, second: self.second as int }
    }
}

impl Stages {
    /// The stages after one more sample `y`: the first follows `y`, the
    /// second follows the first stage's new state.
    pub open spec fn advance(self, y: int, cutoff: int) -> Stages {
        let first = smoothed(self.first, y, cutoff);
        Stages { first, second: smoothed(self.second, first, cutoff) }
    }

    /// What the filter puts out for the sample `y` that brought the stages
    /// to `self`: the sample less the second stage.
    pub open spec fn residual(self, y: int) -> int {
        saturated(y - self.second)
    }

    /// The stages after `n` samples that all equal `y`.
    pub open spec fn settle(self, y: int, cutoff: int, n: nat) -> Stages
        decreases n,
    {
        if n == 0 {
            self
        } else {
            self.settle(y, cutoff, (n - 1) as nat).advance(y, cutoff)
        }
    }
}

/// How far apart `a` and `b` are.
pub open spec fn distance(a: int, b: int) -> nat {
    if a >= b {
        (a - b) as nat
    } else {
        (b - a) as nat
    }
}

/// The larger of two distances.
pub open spec fn farther(a: nat, b: nat) -> nat {
    if a >= b {
        a
    } else {
        b
    }
}

/// A number of samples after which both stages are sure to rest at a
/// constant input `y`, for any cutoff from above zero up to `ONE`.
pub open spec fn settling_time(start: Stages, y: int) -> nat {
    distance(start.first, y) + farther(distance(start.first, y), distance(start.second, y))
}

/// Short of the ends of the sample range, a stage's new state is the state
/// plus the fraction `cutoff` of the gap to the target, exact to within one
/// billionth on the side of the target.
pub proof fn lemma_smoothed_is_the_formula(state: int, target: int, cutoff: int)
    requires
        cutoff > 0,
    ensures
        ({
            let exact = state * ONE + cutoff * (target - state);
            let next = state + quotient_away_from_zero(cutoff * (target - state), ONE as int);
            &&& smoothed(state, target, cutoff) == saturated(next)
            &&& target >= state ==> exact <= next * ONE < exact + ONE
            &&& target <= state ==> exact - ONE < next * ONE <= exact
        }),
{
    let gap = target - state;
    let product = cutoff * gap;
    assert((gap >= 0 ==> product >= 0) && (gap <= 0 ==> product <= 0)) by (nonlinear_arith)
        requires
            product == cutoff * gap,
            cutoff > 0,
    ;
}

/// With a cutoff of at most `ONE`, a stage moves toward its target, never
/// past it, and comes strictly closer unless it is there already. At a
/// cutoff of `ONE` it reaches the target at once.
pub proof fn lemma_smoothed_approaches(state: i64, target: i64, cutoff: i64)
    requires
        0 < cutoff <= ONE,
    ensures
        state <= target ==> state <= smoothed(state as int, target as int, cutoff as int) <= target,
        state >= target ==> state >= smoothed(state as int, target as int, cutoff as int) >= target,
        state != target ==> smoothed(state as int, target as int, cutoff as int) != state,
        cutoff == ONE ==> smoothed(state as int, target as int, cutoff as int) == target,
{
    let gap = target - state;
    let product = cutoff * gap;
    if gap > 0 {
        assert(1 <= product <= ONE * gap && (cutoff == ONE ==> product == ONE * gap))
            by (nonlinear_arith)
            requires
                product == cutoff * gap,
                0 < cutoff <= ONE,
                gap > 0,
        ;
    } else if gap < 0 {
        assert(1 <= -product <= ONE * (-gap) && (cutoff == ONE ==> -product == ONE * (-gap)))
            by (nonlinear_arith)
            requires
                product == cutoff * gap,
                0 < cutoff <= ONE,
                gap < 0,
        ;
    } else {
        assert(product == 0) by (nonlinear_arith)
            requires
                product == cutoff * gap,
                gap == 0,
        ;
    }
}

/// What holds of the stages after `n` samples of a constant input, from
/// which both laws below follow.
proof fn lemma_settle_progress(start: Cascade, y: i64, cutoff: i64, n: nat)
    requires
        0 < cutoff <= ONE,
    ensures
        ({
            let now = start@.settle(y as int, cutoff as int, n);
            let first_gap = distance(start.first as int, y as int);
            let widest = farther(first_gap, distance(start.second as int, y as int));
            &&& i64::MIN <= now.first <= i64::MAX
            &&& i64::MIN <= now.second <= i64::MAX
            &&& distance(now.first, y as int) + n <= first_gap || now.first == y
            &&& distance(now.second, y as int) <= widest
            &&& n >= first_gap ==> distance(now.second, y as int) + (n - first_gap) <= widest
                || now.second == y
            &&& start.second <= start.first <= y ==> now.second <= now.first <= y
            &&& start.second >= start.first >= y ==> now.second >= now.first >= y
        }),
    decreases n,
{
    if n > 0 {
        lemma_settle_progress(start, y, cutoff, (n - 1) as nat);
        let before = start@.settle(y as int, cutoff as int, (n - 1) as nat);
        let now = before.advance(y as int, cutoff as int);
        lemma_smoothed_approaches(before.first as i64, y, cutoff);
        lemma_smoothed_approaches(before.second as i64, now.first as i64, cutoff);
    }
}

/// Under a constant input and a cutoff of at most `ONE`, the first stage
/// moves monotonically toward the input; so does the second, where the
/// stages start in order: the first between the second and the input.
pub proof fn lemma_settle_monotone(start: Cascade, y: i64, cutoff: i64, n: nat)
    requires
        0 < cutoff <= ONE,
    ensures
        ({
            let now = start@.settle(y as int, cutoff as int, n);
            let next = start@.settle(y as int, cutoff as int, n + 1);
            &&& start.first <= y ==> now.first <= next.first <= y
            &&& start.first >= y ==> now.first >= next.first >= y
            &&& start.second <= start.first <= y ==> now.second <= next.second <= next.first
            &&& start.second >= start.first >= y ==> now.second >= next.second >= next.first
        }),
{
    lemma_settle_progress(start, y, cutoff, n);
    lemma_settle_progress(start, y, cutoff, n + 1);
    let now = start@.settle(y as int, cutoff as int, n);
    let next = now.advance(y as int, cutoff as int);
    lemma_first_stage_side(start, y, cutoff, n);
    lemma_smoothed_approaches(now.first as i64, y, cutoff);
    lemma_smoothed_approaches(now.second as i64, next.first as i64, cutoff);
}

/// Under a constant input the first stage stays on the side of the input
/// on which it started.
proof fn lemma_first_stage_side(start: Cascade, y: i64, cutoff: i64, n: nat)
    requires
        0 < cutoff <= ONE,
    ensures
        i64::MIN <= start@.settle(y as int, cutoff as int, n).first <= i64::MAX,
        start.first <= y ==> start@.settle(y as int, cutoff as int, n).first <= y,
        start.first >= y ==> start@.settle(y as int, cutoff as int, n).first >= y,
    decreases n,
{
    if n > 0 {
        lemma_first_stage_side(start, y, cutoff, (n - 1) as nat);
        let before = start@.settle(y as int, cutoff as int, (n - 1) as nat);
        lemma_smoothed_approaches(before.first as i64, y, cutoff);
    }
}

/// Under a constant input `y` and a cutoff of at most `ONE`, both stages
/// come to rest at `y` and the residual at zero: from `settling_time`
/// samples on, nothing changes any more.
pub proof fn lemma_settle_converges(start: Cascade, y: i64, cutoff: i64, n: nat)
    requires
        0 < cutoff <= ONE,
        n >= settling_time(start@, y as int),
    ensures
        start@.settle(y as int, cutoff as int, n) == (Stages { first: y as int, second: y as int }),
        start@.settle(y as int, cutoff as int, n).residual(y as int) == 0,
{
    lemma_settle_progress(start, y, cutoff, n);
}

/// With a cutoff of at most `ONE`, stages and input within full scale
/// leave the stages within full scale.
pub proof fn lemma_advance_within_full_scale(stages: Stages, y: int, cutoff: int)
    requires
        0 < cutoff <= ONE,
        -ONE <= stages.first <= ONE,
        -ONE <= stages.second <= ONE,
        -ONE <= y <= ONE,
    ensures
        -ONE <= stages.advance(y, cutoff).first <= ONE,
        -ONE <= stages.advance(y, cutoff).second <= ONE,
        -2 * ONE <= stages.advance(y, cutoff).residual(y) <= 2 * ONE,
{
    lemma_smoothed_approaches(stages.first as i64, y as i64, cutoff as i64);
    lemma_smoothed_approaches(
        stages.second as i64,
        stages.advance(y, cutoff).first as i64,
        cutoff as i64,
    );
}

/// The size of a stage's move: the product of gap and gain in billionths,
/// rounded up.
fn correction(gap: u128, gain: u128) -> (step: u128)
    requires
        gap <= 0xFFFF_FFFF_FFFF_FFFF,
        0 < gain <= 0x7FFF_FFFF_FFFF_FFFF,
    ensures
        step == (gain * gap + ONE - 1) / (ONE as int),
        step <= 0xF_FFFF_FFFF_FFFF_FFFF_FFFF_FFFF,
{
    assert(gap * gain <= 0xFFFF_FFFF_FFFF_FFFF * 0x7FFF_FFFF_FFFF_FFFF) by (nonlinear_arith)
        requires
            gap <= 0xFFFF_FFFF_FFFF_FFFF,
            gain <= 0x7FFF_FFFF_FFFF_FFFF,
    ;
    assert(gap * gain == gain * gap) by (nonlinear_arith);
    let product: u128 = gap * gain;
    (product + (ONE as u128 - 1)) / (ONE as u128)
}

/// Advances one stage by one sample.
pub fn smooth(state: i64, target: i64, cutoff: i64) -> (next: i64)
    requires
        cutoff > 0,
    ensures
        next == smoothed(state as int, target as int, cutoff as int),
{
    let gap: i128 = target as i128 - state as i128;
    let gain: u128 = cutoff as u128;
    if gap >= 0 {
        assert(cutoff * gap >= 0) by (nonlinear_arith)
            requires
                cutoff > 0,
                gap >= 0,
        ;
        let step: u128 = correction(gap as u128, gain);
        saturate(state as i128 + step as i128)
    } else {
        assert(cutoff * gap < 0 && -(cutoff * gap) == cutoff * (-gap)) by (nonlinear_arith)
            requires
                cutoff > 0,
                gap < 0,
        ;
        let step: u128 = correction((-gap) as u128, gain);
        saturate(state as i128 - step as i128)
    }
}

impl Cascade {
    /// Two stages at rest.
    pub fn new() -> (c: Cascade)
        ensures
            c@ == (Stages { first: 0, second: 0 }),
    {
        Cascade { first: 0, second: 0 }
    }

    /// Feeds one sample through both stages and returns the residual.
    pub fn push(&mut self, y: i64, cutoff: i64) -> (out: i64)
        requires
            cutoff > 0,
        ensures
            final(self)@ == old(self)@.advance(y as int, cutoff as int),
            out == final(self)@.residual(y as int),
    {
        self.first = smooth(self.first, y, cutoff);
        self.second = smooth(self.second, self.first, cutoff);
        saturate(y as i128 - self.second as i128)
    }
}

} // verus!

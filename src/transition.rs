//! Transitions: time-parameterised intensity curves, and their incremental
//! rendering.

use vstd::prelude::*;
use vstd::math::min;
use vstd::arithmetic::div_mod::{
    lemma_div_by_multiple, lemma_div_is_ordered, lemma_div_pos_is_pos, lemma_fundamental_div_mod,
    lemma_mod_bound,
};
use vstd::arithmetic::mul::{lemma_mul_inequality, lemma_mul_nonnegative};
use crate::strength::{clamp_units, Strength, ONE};

verus! {

/// The longest transition duration, in milliseconds (about 31 000 years).
pub const MAX_SPAN: u64 = 1_000_000_000_000_000;

/// The number of units that make up a multiplier of one.
pub const MULTIPLIER_ONE: u32 = 1_000_000;

/// The shape of a transition.
///
/// The "and back" shapes rise from `from` to `to` over the duration, then
/// fall back to `from` over the duration times the multiplier, given in
/// units of `1 / MULTIPLIER_ONE`.
#[derive(Debug, Clone, Copy, PartialEq, Eq, Structural)]
pub enum TransitionInterpolation {
    Linear,
    Sine,
    LinearToAndBack(u32),
    SineToAndBack(u32),
}

/// A curve from one strength to another over `time` milliseconds.
#[derive(Debug, Clone, Copy, PartialEq, Eq, Structural)]
pub struct Transition {
    pub from: Strength,
    pub to: Strength,
    pub time: u64,
    pub interpolation: TransitionInterpolation,
}

impl TransitionInterpolation {
    /// The fall-back multiplier of an "and back" shape.
    pub open spec fn multiplier(self) -> Option<u32> {
        match self {
            TransitionInterpolation::LinearToAndBack(k) => Some(k),
            TransitionInterpolation::SineToAndBack(k) => Some(k),
            _ => None,
        }
    }

    /// Whether the curve follows the sine ease rather than a straight line.
    pub open spec fn is_sine(self) -> bool {
        match self {
            TransitionInterpolation::Sine => true,
            TransitionInterpolation::SineToAndBack(_) => true,
            _ => false,
        }
    }
}

impl Transition {
    /// Strengths in range, a duration that fits the clock arithmetic, and a
    /// positive multiplier.
    pub open spec fn wf(self) -> bool {
        &&& self.from@ <= ONE
        &&& self.to@ <= ONE
        &&& self.time <= MAX_SPAN
        &&& (self.interpolation.multiplier() matches Some(k) ==> k > 0)
    }

    /// Whether the transition is well-formed, computed.
    pub fn is_valid(&self) -> (r: bool)
        ensures
            r == self.wf(),
    {
        self.from.into_inner() <= ONE && self.to.into_inner() <= ONE && self.time <= MAX_SPAN && match self.interpolation {
            TransitionInterpolation::LinearToAndBack(k) | TransitionInterpolation::SineToAndBack(k) => k > 0,
            _ => true,
        }
    }
}

/// The elapsed time, in milliseconds, at which a transition is finished:
/// its duration, or for an "and back" shape the least `e` with
/// `e * MULTIPLIER_ONE >= time * (MULTIPLIER_ONE + k)`.
pub open spec fn end_point(t: Transition) -> nat {
    match t.interpolation.multiplier() {
        None => t.time as nat,
        Some(k) => ((t.time * (MULTIPLIER_ONE + k) + MULTIPLIER_ONE - 1) / (MULTIPLIER_ONE as int)) as nat,
    }
}

/// How far along the rising part of the curve the transition stands after
/// `e` milliseconds, in units of `1 / ONE`: `e / time` while rising, then
/// `1 - (e - time) / (k * time)` while falling back.
pub open spec fn base_fraction(t: Transition, e: int) -> int {
    let d = t.time as int;
    match t.interpolation.multiplier() {
        None => if e >= d {
            ONE as int
        } else {
            e * ONE / d
        },
        Some(k) => if d == 0 {
            ONE as int
        } else if e <= d {
            e * ONE / d
        } else {
            let back = (e - d) * ONE * MULTIPLIER_ONE / (d * (k as int));
            if back >= ONE {
                0
            } else {
                ONE - back
            }
        },
    }
}

/// The sine ease `(sin(u * pi - pi / 2) + 1) / 2` on `0..=ONE`, with the sine
/// taken from Bhaskara I's rational formula
/// `sin(pi * x) ~ 16 x (1 - x) / (5 - 4 x (1 - x))` on `0..=1`, which is exact
/// at both ends and the middle and within 0.2% of full scale between.
pub open spec fn sine_ease(u: int) -> int {
    let half = ONE / 2;
    let x = if u >= half {
        u - half
    } else {
        half - u
    };
    let q = x * (ONE - x);
    let s = 16 * q * ONE / (5 * ONE * ONE - 4 * q);
    if u >= half {
        (ONE + s) / 2
    } else {
        (ONE - s) / 2
    }
}

/// The curve's value, before it is mapped onto `from..to`.
pub open spec fn curve_fraction(t: Transition, e: int) -> int {
    if t.interpolation.is_sine() {
        sine_ease(base_fraction(t, e))
    } else {
        base_fraction(t, e)
    }
}

/// `u` in `0..=ONE` mapped linearly onto `zero..one`, rounding toward `zero`.
pub open spec fn remap(u: int, zero: int, one: int) -> int {
    if one >= zero {
        zero + u * (one - zero) / (ONE as int)
    } else {
        zero - u * (zero - one) / (ONE as int)
    }
}

/// The strength, in units, that a transition emits after `e` milliseconds.
pub open spec fn level_at(t: Transition, e: int) -> int {
    remap(curve_fraction(t, e), t.from@ as int, t.to@ as int)
}

proof fn lemma_part_le_whole(a: int, b: int, c: int)
    requires
        0 <= a <= b,
        0 < b,
        0 <= c,
    ensures
        0 <= a * c / b <= c,
{
    lemma_mul_inequality(a, b, c);
    assert(b * c == c * b) by (nonlinear_arith);
    lemma_div_is_ordered(a * c, c * b, b);
    lemma_div_by_multiple(c, b);
    lemma_mul_nonnegative(a, c);
    lemma_div_pos_is_pos(a * c, b);
}

proof fn lemma_base_fraction_in_range(t: Transition, e: int)
    requires
        t.wf(),
        e >= 0,
    ensures
        0 <= base_fraction(t, e) <= ONE,
{
    let d = t.time as int;
    if e < d {
        lemma_part_le_whole(e, d, ONE as int);
        assert(e * ONE == e * (ONE as int));
    }
    match t.interpolation.multiplier() {
        None => {},
        Some(k) => {
            if d != 0 && e > d && k > 0 {
                lemma_mul_nonnegative(e - d, ONE * MULTIPLIER_ONE);
                assert((e - d) * ONE * MULTIPLIER_ONE == (e - d) * (ONE * MULTIPLIER_ONE)) by (nonlinear_arith);
                lemma_mul_nonnegative(d, k as int);
                assert(d * k > 0) by (nonlinear_arith)
                    requires d > 0, k > 0;
                lemma_div_pos_is_pos((e - d) * ONE * MULTIPLIER_ONE, d * k);
            }
            if e == d && d > 0 {
                lemma_div_by_multiple(ONE as int, d);
                assert(e * ONE == ONE * d) by (nonlinear_arith) requires e == d;
            }
        },
    }
}

proof fn lemma_sine_ease_in_range(u: int)
    requires
        0 <= u <= ONE,
    ensures
        0 <= sine_ease(u) <= ONE,
        u == 0 ==> sine_ease(u) == 0,
        u == ONE ==> sine_ease(u) == ONE,
{
    let half = ONE / 2;
    let x = if u >= half {
        u - half
    } else {
        half - u
    };
    let q = x * (ONE - x);
    assert(0 <= x <= half);
    assert(0 <= q && 4 * q <= ONE * ONE) by (nonlinear_arith)
        requires 0 <= x <= half, half == 500_000_000, q == x * (ONE - x);
    let den = 5 * ONE * ONE - 4 * q;
    assert(den >= 4 * ONE * ONE);
    assert(16 * q * ONE <= ONE * den) by (nonlinear_arith)
        requires 4 * q <= ONE * ONE, den == 5 * ONE * ONE - 4 * q;
    lemma_div_is_ordered(16 * q * ONE, ONE * den, den);
    lemma_div_by_multiple(ONE as int, den);
    assert(ONE * den == ONE as int * den);
    lemma_mul_nonnegative(16 * q, ONE as int);
    lemma_div_pos_is_pos(16 * q * ONE, den);
    if u == ONE || u == 0 {
        assert(x == half);
        assert(q == 250_000_000_000_000_000) by (nonlinear_arith)
            requires x == 500_000_000, q == x * (ONE - x);
        assert(16 * q * ONE == ONE * den) by (nonlinear_arith)
            requires q == 250_000_000_000_000_000, den == 5 * ONE * ONE - 4 * q;
        lemma_div_by_multiple(ONE as int, den);
    }
}

proof fn lemma_remap_between(u: int, zero: int, one: int)
    requires
        0 <= u <= ONE,
        0 <= zero <= ONE,
        0 <= one <= ONE,
    ensures
        zero <= one ==> zero <= remap(u, zero, one) <= one,
        one < zero ==> one <= remap(u, zero, one) <= zero,
        u == 0 ==> remap(u, zero, one) == zero,
        u == ONE ==> remap(u, zero, one) == one,
{
    if one >= zero {
        lemma_part_le_whole(u, ONE as int, one - zero);
        if u == ONE {
            lemma_div_by_multiple(one - zero, ONE as int);
            assert(u * (one - zero) == (one - zero) * ONE) by (nonlinear_arith)
                requires u == ONE;
        }
    } else {
        lemma_part_le_whole(u, ONE as int, zero - one);
        if u == ONE {
            lemma_div_by_multiple(zero - one, ONE as int);
            assert(u * (zero - one) == (zero - one) * ONE) by (nonlinear_arith)
                requires u == ONE;
        }
    }
}

/// The level of a transition always lies between its two end strengths.
pub proof fn lemma_level_between(t: Transition, e: int)
    requires
        t.wf(),
        e >= 0,
    ensures
        t.from@ <= t.to@ ==> t.from@ <= level_at(t, e) <= t.to@,
        t.to@ < t.from@ ==> t.to@ <= level_at(t, e) <= t.from@,
        0 <= level_at(t, e) <= ONE,
{
    lemma_base_fraction_in_range(t, e);
    lemma_sine_ease_in_range(base_fraction(t, e));
    lemma_remap_between(curve_fraction(t, e), t.from@ as int, t.to@ as int);
}


/// What one step of a rendered transition emits.
#[derive(Debug, Clone, Copy, PartialEq, Eq, Structural)]
pub enum TransitionStateOut {
    Ongoing(Strength),
    Finished(Strength),
}

impl TransitionStateOut {
    pub open spec fn strength(self) -> Strength {
        match self {
            TransitionStateOut::Ongoing(s) => s,
            TransitionStateOut::Finished(s) => s,
        }
    }

    pub open spec fn is_finished(self) -> bool {
        self is Finished
    }

    /// Maps the curve value `fraction` (in `0..=ONE`) onto the transition's
    /// strengths; the result is `Finished` once `progress` reaches `finish`,
    /// and is then saturated into range.
    pub fn remap_and_check_finish(transition: &Transition, fraction: u32, progress: u64, finish: u64) -> (r: Self)
        requires
            fraction <= ONE,
        ensures
            r.is_finished() == (progress >= finish),
            r.strength()@ == remap(fraction as int, transition.from@ as int, transition.to@ as int),
    {
        let zero = transition.from.into_inner();
        let one = transition.to.into_inner();
        proof {
            lemma_remap_between(fraction as int, zero as int, one as int);
        }
        let remapped = remap_units(fraction, zero, one);
        if progress >= finish {
            TransitionStateOut::Finished(Strength::new_clamped(remapped as i64))
        } else {
            TransitionStateOut::Ongoing(Strength::new(remapped))
        }
    }
}

fn remap_units(u: u32, zero: u32, one: u32) -> (r: u32)
    requires
        u <= ONE,
        zero <= ONE,
        one <= ONE,
    ensures
        r == remap(u as int, zero as int, one as int),
{
    proof {
        lemma_remap_between(u as int, zero as int, one as int);
    }
    if one >= zero {
        let span = (u as u128) * ((one - zero) as u128) / (ONE as u128);
        (zero as u128 + span) as u32
    } else {
        let span = (u as u128) * ((zero - one) as u128) / (ONE as u128);
        (zero as u128 - span) as u32
    }
}

/// The end point of a transition, computed.
fn end_point_of(t: &Transition) -> (r: u64)
    requires
        t.wf(),
    ensures
        r == end_point(*t),
{
    match t.interpolation {
        TransitionInterpolation::LinearToAndBack(k) | TransitionInterpolation::SineToAndBack(k) => {
            proof {
                assert(t.time * (MULTIPLIER_ONE + k) <= MAX_SPAN * 4_295_967_295) by (nonlinear_arith)
                    requires t.time <= MAX_SPAN, k <= 4_294_967_295u32;
            }
            let total = (t.time as u128) * ((MULTIPLIER_ONE as u128) + (k as u128))
                + (MULTIPLIER_ONE as u128) - 1;
            proof {
                lemma_div_is_ordered(total as int, MAX_SPAN * 4_295_967_295 + MULTIPLIER_ONE - 1, MULTIPLIER_ONE as int);
                assert((MAX_SPAN * 4_295_967_295 + MULTIPLIER_ONE - 1) / (MULTIPLIER_ONE as int) < 0xffff_ffff_ffff_ffff);
            }
            (total / (MULTIPLIER_ONE as u128)) as u64
        },
        _ => t.time,
    }
}

fn base_fraction_of(t: &Transition, e: u64) -> (r: u32)
    requires
        t.wf(),
    ensures
        r == base_fraction(*t, e as int),
{
    proof {
        lemma_base_fraction_in_range(*t, e as int);
    }
    let d = t.time;
    match t.interpolation {
        TransitionInterpolation::LinearToAndBack(k) | TransitionInterpolation::SineToAndBack(k) => {
            if d == 0 {
                ONE
            } else if e <= d {
                ((e as u128) * (ONE as u128) / (d as u128)) as u32
            } else {
                proof {
                    assert((e - d) * ONE * MULTIPLIER_ONE <= 0xffff_ffff_ffff_ffffu64 * ONE * MULTIPLIER_ONE) by (nonlinear_arith)
                        requires e - d <= 0xffff_ffff_ffff_ffffu64;
                    assert(d * k <= 0xffff_ffff_ffff_ffffu64 * 0xffff_ffffu64) by (nonlinear_arith)
                        requires d <= 0xffff_ffff_ffff_ffffu64, k <= 0xffff_ffffu32;
                    assert(d * k > 0) by (nonlinear_arith)
                        requires d > 0, k > 0;
                }
                let back = ((e - d) as u128) * (ONE as u128) * (MULTIPLIER_ONE as u128)
                    / ((d as u128) * (k as u128));
                if back >= ONE as u128 {
                    0
                } else {
                    ONE - (back as u32)
                }
            }
        },
        _ => {
            if e >= d {
                ONE
            } else {
                ((e as u128) * (ONE as u128) / (d as u128)) as u32
            }
        },
    }
}

fn sine_ease_of(u: u32) -> (r: u32)
    requires
        u <= ONE,
    ensures
        r == sine_ease(u as int),
{
    proof {
        lemma_sine_ease_in_range(u as int);
    }
    let half: u32 = ONE / 2;
    let x: u128 = if u >= half {
        (u - half) as u128
    } else {
        (half - u) as u128
    };
    proof {
        assert(0 <= x * (ONE - x) && 4 * (x * (ONE - x)) <= ONE * ONE) by (nonlinear_arith)
            requires 0 <= x <= 500_000_000;
    }
    let q: u128 = x * ((ONE as u128) - x);
    let den: u128 = 5 * (ONE as u128) * (ONE as u128) - 4 * q;
    let s: u128 = 16 * q * (ONE as u128) / den;
    if u >= half {
        (((ONE as u128) + s) / 2) as u32
    } else {
        (((ONE as u128) - s) / 2) as u32
    }
}

/// The level of a transition after `e` milliseconds, computed.
fn level_of(t: &Transition, e: u64) -> (r: u32)
    requires
        t.wf(),
    ensures
        r == level_at(*t, e as int),
        r <= ONE,
{
    proof {
        lemma_level_between(*t, e as int);
        lemma_base_fraction_in_range(*t, e as int);
    }
    let base = base_fraction_of(t, e);
    let curve = match t.interpolation {
        TransitionInterpolation::Sine | TransitionInterpolation::SineToAndBack(_) => sine_ease_of(base),
        _ => base,
    };
    proof {
        lemma_sine_ease_in_range(base as int);
    }
    remap_units(curve, t.from.into_inner(), t.to.into_inner())
}

/// A transition being rendered: how many milliseconds of it have passed.
#[derive(Debug, Clone, Copy, PartialEq, Eq, Structural)]
pub struct TransitionState {
    transition: Transition,
    elapsed: u64,
}

impl TransitionState {
    #[verifier::type_invariant]
    spec fn progress_in_range(self) -> bool {
        &&& self.transition.wf()
        &&& self.elapsed <= end_point(self.transition)
    }

    /// The transition being rendered.
    pub closed spec fn transition(self) -> Transition {
        self.transition
    }

    /// The milliseconds of the transition rendered so far.
    pub closed spec fn elapsed(self) -> nat {
        self.elapsed as nat
    }

    /// Starts rendering `transition` at its beginning.
    pub fn new(transition: Transition) -> (r: Self)
        requires
            transition.wf(),
        ensures
            r.transition() == transition,
            r.elapsed() == 0,
    {
        TransitionState { transition, elapsed: 0 }
    }

    /// Advances the rendering by `delta_time` milliseconds (never past the
    /// end point) and reports the level reached, `Finished` at the end point.
    pub fn process(&mut self, delta_time: u64) -> (r: TransitionStateOut)
        ensures
            final(self).transition() == old(self).transition(),
            final(self).elapsed() == min(
                old(self).elapsed() + delta_time,
                end_point(old(self).transition()) as int,
            ),
            r.is_finished() == (final(self).elapsed() >= end_point(old(self).transition())),
            r.strength()@ == level_at(old(self).transition(), final(self).elapsed() as int),
    {
        proof {
            use_type_invariant(&*self);
        }
        let end = end_point_of(&self.transition);
        let elapsed = if delta_time >= end - self.elapsed {
            end
        } else {
            self.elapsed + delta_time
        };
        self.elapsed = elapsed;
        let fraction = match self.transition.interpolation {
            TransitionInterpolation::Sine | TransitionInterpolation::SineToAndBack(_) => {
                proof {
                    lemma_base_fraction_in_range(self.transition, elapsed as int);
                }
                sine_ease_of(base_fraction_of(&self.transition, elapsed))
            },
            _ => base_fraction_of(&self.transition, elapsed),
        };
        proof {
            lemma_base_fraction_in_range(self.transition, elapsed as int);
            lemma_sine_ease_in_range(base_fraction(self.transition, elapsed as int));
        }
        TransitionStateOut::remap_and_check_finish(&self.transition, fraction, elapsed, end)
    }
}


/// The sum of a run of tick lengths.
pub open spec fn total(deltas: Seq<u64>) -> nat
    decreases deltas.len(),
{
    if deltas.len() == 0 {
        0
    } else {
        (deltas[0] + total(deltas.drop_first())) as nat
    }
}

/// The progress of a transition after ticks of the given lengths, starting
/// from `e` milliseconds, as `TransitionState::process` advances it.
pub open spec fn elapsed_after(t: Transition, e: nat, deltas: Seq<u64>) -> nat
    decreases deltas.len(),
{
    if deltas.len() == 0 {
        e
    } else {
        elapsed_after(t, min((e + deltas[0]) as int, end_point(t) as int) as nat, deltas.drop_first())
    }
}

/// Progress adds up the ticks and stops at the end point.
pub proof fn lemma_elapsed_after(t: Transition, e: nat, deltas: Seq<u64>)
    requires
        e <= end_point(t),
    ensures
        elapsed_after(t, e, deltas) == min((e + total(deltas)) as int, end_point(t) as int),
    decreases deltas.len(),
{
    if deltas.len() > 0 {
        lemma_elapsed_after(t, min((e + deltas[0]) as int, end_point(t) as int) as nat, deltas.drop_first());
    }
}

/// A linear or sine transition rendered in ticks that add up to at least
/// its duration reaches its end point, where it is finished at exactly its
/// target strength.
pub proof fn lemma_render_ends_at_target(t: Transition, deltas: Seq<u64>)
    requires
        t.wf(),
        t.interpolation.multiplier() is None,
        total(deltas) >= t.time,
    ensures
        elapsed_after(t, 0, deltas) == end_point(t),
        level_at(t, end_point(t) as int) == t.to@,
{
    lemma_elapsed_after(t, 0, deltas);
    lemma_sine_ease_in_range(ONE as int);
    lemma_remap_between(ONE as int, t.from@ as int, t.to@ as int);
}

/// An "and back" transition of positive duration peaks at its target when
/// the rising part ends, returns to its start strength at its end point, and
/// never leaves the range between the two.
pub proof fn lemma_and_back_peak_and_return(t: Transition)
    requires
        t.wf(),
        t.interpolation.multiplier() is Some,
        t.time > 0,
    ensures
        level_at(t, t.time as int) == t.to@,
        level_at(t, end_point(t) as int) == t.from@,
        forall|e: int| 0 <= e ==> #[trigger] level_at(t, e) <= max_level(t) && level_at(t, e) >= min_level(t),
        max_level(t) == t.to@ || max_level(t) == t.from@,
{
    let d = t.time as int;
    let k = t.interpolation.multiplier()->0 as int;
    let m = MULTIPLIER_ONE as int;
    // the peak
    lemma_div_by_multiple(ONE as int, d);
    assert(d * ONE == ONE * d) by (nonlinear_arith);
    assert(base_fraction(t, d) == ONE);
    lemma_sine_ease_in_range(ONE as int);
    lemma_remap_between(ONE as int, t.from@ as int, t.to@ as int);
    // the return
    let x = d * (m + k);
    let end = end_point(t) as int;
    assert(x >= 0) by (nonlinear_arith) requires d > 0, k > 0, m > 0, x == d * (m + k);
    lemma_fundamental_div_mod(x + m - 1, m);
    lemma_mod_bound(x + m - 1, m);
    assert(end == (x + m - 1) / m);
    assert(m * end >= x);
    assert((end - d) * m >= d * k) by (nonlinear_arith)
        requires m * end >= x, x == d * (m + k);
    assert(end > d) by (nonlinear_arith) requires (end - d) * m >= d * k, d > 0, k > 0, m > 0;
    let num = (end - d) * ONE * m;
    let den = d * k;
    assert(den > 0) by (nonlinear_arith) requires d > 0, k > 0, den == d * k;
    assert(num >= ONE * den) by (nonlinear_arith)
        requires (end - d) * m >= d * k, num == (end - d) * ONE * m, den == d * k;
    lemma_div_is_ordered(ONE * den, num, den);
    lemma_div_by_multiple(ONE as int, den);
    assert(ONE * den == ONE as int * den);
    assert(base_fraction(t, end) == 0);
    lemma_sine_ease_in_range(0);
    lemma_remap_between(0, t.from@ as int, t.to@ as int);
    assert forall|e: int| 0 <= e implies #[trigger] level_at(t, e) <= max_level(t) && level_at(t, e) >= min_level(t) by {
        lemma_level_between(t, e);
    }
}

/// The larger of a transition's two end strengths.
pub open spec fn max_level(t: Transition) -> nat {
    if t.from@ <= t.to@ {
        t.to@
    } else {
        t.from@
    }
}

/// The smaller of a transition's two end strengths.
pub open spec fn min_level(t: Transition) -> nat {
    if t.from@ <= t.to@ {
        t.from@
    } else {
        t.to@
    }
}

impl Default for Transition {
    /// From off to full power over fifteen minutes on the sine ease, then
    /// back over half that time.
    fn default() -> (r: Self)
        ensures
            r.from@ == 0,
            r.to@ == ONE,
            r.time == 900_000,
            r.interpolation == TransitionInterpolation::SineToAndBack(500_000),
            r.wf(),
    {
        Transition {
            from: Strength::new(0),
            to: Strength::new(ONE),
            time: 900_000,
            interpolation: TransitionInterpolation::SineToAndBack(500_000),
        }
    }
}

} // verus!

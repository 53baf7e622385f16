//! Cubic ease-out in exact integer arithmetic.
//!
//! Progress through a transition is the fraction `elapsed / duration`. The eased progress
//! `1 - (1 - t)^3` of that fraction is again a fraction, with the cube of the duration as
//! its denominator, so no rounding happens until a coordinate is produced.

use vstd::prelude::*;
use crate::geometry::{div_toward_zero, max_int, min_int, COORD_LIMIT};

verus! {

/// Longest transition that can be sampled, in milliseconds.
pub const MAX_DURATION_MS: u64 = 1_000_000;

/// The third power.
pub open spec fn cube(x: int) -> int {
    x * x * x
}

/// Numerator of the eased progress `1 - (1 - elapsed/duration)^3` over `cube(duration)`.
pub open spec fn eased_numerator(elapsed: int, duration: int) -> int {
    cube(duration) - cube(duration - elapsed)
}

/// The value `num / den` of the way from `start` to `end`, the distance covered rounded
/// toward zero.
pub open spec fn interpolate(start: int, end: int, num: int, den: int) -> int {
    start + div_toward_zero((end - start) * num, den)
}

/// A length grown from a tenth of `full` to all of it as `num / den` goes from 0 to 1,
/// rounded toward zero.
pub open spec fn grown(full: int, num: int, den: int) -> int {
    div_toward_zero(full * (den + 9 * num), 10 * den)
}

/// An eased progress value, as a fraction between 0 and 1.
#[derive(Clone, Copy, Debug, PartialEq, Eq, Structural)]
pub struct Eased {
    pub num: u64,
    pub den: u64,
}

impl Eased {
    /// The fraction lies between 0 and 1, over a denominator that a duration gives.
    pub open spec fn valid(self) -> bool {
        &&& 0 < self.den <= cube(MAX_DURATION_MS as int)
        &&& self.num <= self.den
    }
}

/// The cube grows with its argument, from zero on.
pub proof fn lemma_cube_monotonic(a: int, b: int)
    requires
        0 <= a <= b,
    ensures
        0 <= cube(a) <= cube(b),
{
    assert(0 <= a * a <= b * b) by (nonlinear_arith)
        requires
            0 <= a <= b,
    ;
    assert(0 <= (a * a) * a <= (b * b) * b) by (nonlinear_arith)
        requires
            0 <= a <= b,
            0 <= a * a <= b * b,
    ;
}

/// The cube of the longest duration.
pub proof fn lemma_cube_limit()
    ensures
        cube(MAX_DURATION_MS as int) == 1_000_000_000_000_000_000,
{
    assert(1_000_000int * 1_000_000int == 1_000_000_000_000int);
    assert(1_000_000_000_000int * 1_000_000int == 1_000_000_000_000_000_000int);
}

/// The cube of a positive number is positive.
pub proof fn lemma_cube_positive(a: int)
    requires
        0 < a,
    ensures
        0 < cube(a),
{
    assert(0 < (a * a) * a) by (nonlinear_arith)
        requires
            0 < a,
    ;
}

/// A product divided by a factor no smaller than the other factor stays within the first.
pub proof fn lemma_scaled_within(m: int, num: int, den: int)
    requires
        0 <= m,
        0 <= num <= den,
        0 < den,
    ensures
        0 <= (m * num) / den <= m,
        num == 0 ==> (m * num) / den == 0,
        num == den ==> (m * num) / den == m,
{
    assert(0 <= m * num <= m * den) by (nonlinear_arith)
        requires
            0 <= m,
            0 <= num <= den,
    ;
    vstd::arithmetic::div_mod::lemma_div_is_ordered(0, m * num, den);
    vstd::arithmetic::div_mod::lemma_div_is_ordered(m * num, m * den, den);
    vstd::arithmetic::div_mod::lemma_div_multiples_vanish(m, den);
    assert(m * den == den * m) by (nonlinear_arith);
    assert(0int / den == 0) by (nonlinear_arith)
        requires
            0 < den,
    ;
    if num == 0 {
        assert(m * num == 0) by (nonlinear_arith)
            requires
                num == 0,
        ;
    }
}

/// The eased progress of `elapsed` out of `duration` milliseconds.
pub fn ease_out_cubic(elapsed: u64, duration: u64) -> (e: Eased)
    requires
        0 < duration <= MAX_DURATION_MS,
        elapsed <= duration,
    ensures
        e.den == cube(duration as int),
        e.num == eased_numerator(elapsed as int, duration as int),
        e.valid(),
        elapsed == 0 ==> e.num == 0,
        elapsed == duration ==> e.num == e.den,
{
    let rest: u64 = duration - elapsed;
    proof {
        lemma_cube_monotonic(rest as int, duration as int);
        lemma_cube_monotonic(duration as int, MAX_DURATION_MS as int);
        lemma_cube_positive(duration as int);
        lemma_cube_limit();
        assert(0 <= duration * duration <= 1_000_000_000_000) by (nonlinear_arith)
            requires
                0 <= duration <= 1_000_000,
        ;
        assert(0 <= rest * rest <= 1_000_000_000_000) by (nonlinear_arith)
            requires
                0 <= rest <= 1_000_000,
        ;
        assert(cube(0) == 0);
    }
    let den: u64 = duration * duration * duration;
    let rem: u64 = rest * rest * rest;
    Eased { num: den - rem, den }
}

/// Linear interpolation from `start` to `end` at an eased progress.
pub fn lerp(start: i32, end: i32, t: &Eased) -> (r: i32)
    requires
        t.valid(),
    ensures
        r == interpolate(start as int, end as int, t.num as int, t.den as int),
        min_int(start as int, end as int) <= r <= max_int(start as int, end as int),
        t.num == 0 ==> r == start,
        t.num == t.den ==> r == end,
{
    let delta: i64 = end as i64 - start as i64;
    if delta >= 0 {
        proof {
            lemma_scaled_within(delta as int, t.num as int, t.den as int);
            assert(delta * t.num <= delta * t.den) by (nonlinear_arith)
                requires
                    0 <= delta,
                    0 <= t.num <= t.den,
            ;
            assert(delta * t.den <= 0x1_0000_0000 * 1_000_000_000_000_000_000) by (nonlinear_arith)
                requires
                    0 <= delta <= 0x1_0000_0000,
                    0 <= t.den <= 1_000_000_000_000_000_000,
            ;
            lemma_cube_limit();
            assert(0 <= delta * t.num) by (nonlinear_arith)
                requires
                    0 <= delta,
                    0 <= t.num,
            ;
        }
        let covered: u128 = (delta as u128 * t.num as u128) / (t.den as u128);
        (start as i64 + covered as i64) as i32
    } else {
        let back: i64 = -delta;
        proof {
            lemma_scaled_within(back as int, t.num as int, t.den as int);
            assert(back * t.num <= back * t.den) by (nonlinear_arith)
                requires
                    0 <= back,
                    0 <= t.num <= t.den,
            ;
            assert(back * t.den <= 0x1_0000_0000 * 1_000_000_000_000_000_000) by (nonlinear_arith)
                requires
                    0 <= back <= 0x1_0000_0000,
                    0 <= t.den <= 1_000_000_000_000_000_000,
            ;
            lemma_cube_limit();
            assert(0 <= back * t.num) by (nonlinear_arith)
                requires
                    0 <= back,
                    0 <= t.num,
            ;
            assert((end - start) * t.num == -(back * t.num)) by (nonlinear_arith)
                requires
                    back == -(end - start),
            ;
            assert(back * t.num == 0 ==> (back * t.num) / (t.den as int) == 0);
        }
        let covered: u128 = (back as u128 * t.num as u128) / (t.den as u128);
        (start as i64 - covered as i64) as i32
    }
}

/// A length grown from a tenth of `full` toward `full` at an eased progress.
pub fn grow(full: i64, t: &Eased) -> (r: i64)
    requires
        t.valid(),
        -2 * COORD_LIMIT <= full <= 2 * COORD_LIMIT,
    ensures
        r == grown(full as int, t.num as int, t.den as int),
        full >= 0 ==> 0 <= r <= full,
        full < 0 ==> full <= r <= 0,
{
    proof {
        lemma_cube_limit();
    }
    let scale_num: u128 = t.den as u128 + 9 * (t.num as u128);
    let scale_den: u128 = 10 * (t.den as u128);
    if full >= 0 {
        proof {
            lemma_scaled_within(full as int, scale_num as int, scale_den as int);
            assert(0 <= full * scale_num <= 0x1_0000_0000 * 10_000_000_000_000_000_000)
                by (nonlinear_arith)
                requires
                    0 <= full <= 0x1_0000_0000,
                    0 <= scale_num <= 10_000_000_000_000_000_000,
            ;
        }
        let length: u128 = (full as u128 * scale_num) / scale_den;
        length as i64
    } else {
        let back: i64 = -full;
        proof {
            lemma_scaled_within(back as int, scale_num as int, scale_den as int);
            assert(0 <= back * scale_num <= 0x1_0000_0000 * 10_000_000_000_000_000_000)
                by (nonlinear_arith)
                requires
                    0 <= back <= 0x1_0000_0000,
                    0 <= scale_num <= 10_000_000_000_000_000_000,
            ;
            assert(full * (t.den + 9 * t.num) == -(back * scale_num)) by (nonlinear_arith)
                requires
                    back == -full,
                    scale_num == t.den + 9 * t.num,
            ;
            assert(back * scale_num == 0 ==> (back * scale_num) / (scale_den as int) == 0);
        }
        let length: u128 = (back as u128 * scale_num) / scale_den;
        -(length as i64)
    }
}

} // verus!

//! The two speed curves: an exponential ramp toward one for acceleration and
//! an inverse-square decay toward zero for deceleration.
//!
//! Both are stateless functions of an elapsed time and a rate. Negative
//! times count as zero.
//!
//! The exponential is this library's own fixed-point function: on arguments
//! up to one half, [`exp_decay`] is the alternating series of `e^(-x)` cut
//! after [`SERIES_TERMS`] terms and evaluated from the innermost term
//! outward; above one half it is the square of its value at half the
//! argument.

use crate::fixed::{in_range, max_int, one, sat_add, sat_div, sat_mul, sat_neg, sat_sub, Fixed};
use crate::fixed_lemmas::{
    lemma_add_monotone, lemma_mul_monotone, lemma_mul_nonneg, lemma_mul_nonpos, lemma_mul_one,
    lemma_mul_zero, lemma_reciprocal_antitone, lemma_reciprocal_at_most_one,
    lemma_reciprocal_nonneg, lemma_reciprocal_one, lemma_reciprocal_positive,
};
use vstd::prelude::*;

verus! {

/// Number of terms of the series after the leading one.
pub const SERIES_TERMS: u64 = 10;

/// The raw integer of one half.
pub open spec fn half() -> int {
    0x8000_0000
}

/// The series of `e^(-x)` from its `n`-th factor inward:
/// `q(n) = 1 - (x / n) * q(n + 1)`, with `q(SERIES_TERMS + 1) = 1`.
pub open spec fn series_tail(x: int, n: int) -> int
    decreases SERIES_TERMS + 1 - n,
{
    if n < 1 || n > SERIES_TERMS {
        one()
    } else {
        one() - ((x / n) * series_tail(x, n + 1)) / one()
    }
}

/// The fixed-point value of `e^(-x)` for a raw `x >= 0`; one for `x <= 0`.
pub open spec fn exp_decay(x: int) -> int
    decreases x,
{
    if x <= 0 {
        one()
    } else if x <= half() {
        series_tail(x, 1)
    } else {
        let h = exp_decay(x / 2);
        (h * h) / one()
    }
}

/// The fixed-point value of `e^x`: a decay for `x <= 0`, and the saturating
/// reciprocal of the decay of `x` above zero.
pub open spec fn exp_spec(x: int) -> int {
    if x <= 0 {
        exp_decay(-x)
    } else {
        sat_div(one(), exp_decay(x))
    }
}

/// The acceleration ramp `1 - e^(-k * max(t, 0))`.
pub open spec fn accel_ramp(t: int, k: int) -> int {
    sat_sub(one(), exp_spec(sat_mul(sat_neg(k), max_int(t, 0))))
}

/// The deceleration ramp `1 / (1 + a * max(t, 0))^2`.
pub open spec fn decel_ramp(t: int, a: int) -> int {
    let u = sat_add(one(), sat_mul(a, max_int(t, 0)));
    sat_div(one(), sat_mul(u, u))
}

/// Each tail of the series lies between zero and one for arguments up to
/// one.
pub proof fn lemma_series_tail_range(x: int, n: int)
    requires
        0 <= x <= one(),
    ensures
        0 <= series_tail(x, n) <= one(),
    decreases SERIES_TERMS + 1 - n,
{
    if 1 <= n <= SERIES_TERMS {
        lemma_series_tail_range(x, n + 1);
        let q = series_tail(x, n + 1);
        let f = x / n;
        assert(0 <= f <= one()) by (nonlinear_arith)
            requires
                0 <= x <= one(),
                1 <= n,
                f == x / n,
        ;
        assert(0 <= (f * q) / one() <= one()) by (nonlinear_arith)
            requires
                0 <= f <= one(),
                0 <= q <= one(),
                one() == 0x1_0000_0000,
        {
            assert(0 <= f * q <= one() * one());
        }
    }
}

/// The decay lies between zero and one.
pub proof fn lemma_exp_decay_range(x: int)
    ensures
        0 <= exp_decay(x) <= one(),
    decreases x,
{
    if x <= 0 {
    } else if x <= half() {
        lemma_series_tail_range(x, 1);
    } else {
        lemma_exp_decay_range(x / 2);
        let h = exp_decay(x / 2);
        assert(0 <= (h * h) / one() <= one()) by (nonlinear_arith)
            requires
                0 <= h <= one(),
                one() == 0x1_0000_0000,
        {
            assert(0 <= h * h <= one() * one());
        }
    }
}

/// The denominator of the exact value of a tail of the series: the product
/// of `m * 2^32` over the factors `m` from the `n`-th inward.
pub open spec fn series_den(n: int) -> int
    decreases SERIES_TERMS + 1 - n,
{
    if n < 1 || n > SERIES_TERMS {
        1
    } else {
        n * one() * series_den(n + 1)
    }
}

/// The numerator of the exact value of a tail of the series. Without
/// rounding, `q(n) = 1 - x * q(n + 1) / n` is the fraction
/// `series_num(x, n) / series_den(n)` of raw units; for `n = 1` that is the
/// polynomial `1 - x + x^2/2! - ... + x^10/10!` of `e^(-x)`.
pub open spec fn series_num(x: int, n: int) -> int
    decreases SERIES_TERMS + 1 - n,
{
    if n < 1 || n > SERIES_TERMS {
        one()
    } else {
        one() * series_den(n) - x * series_num(x, n + 1)
    }
}

/// The denominators are positive.
proof fn lemma_series_den_positive(n: int)
    ensures
        series_den(n) > 0,
    decreases SERIES_TERMS + 1 - n,
{
    if 1 <= n <= SERIES_TERMS {
        lemma_series_den_positive(n + 1);
        assert(n * one() * series_den(n + 1) > 0) by (nonlinear_arith)
            requires
                n >= 1,
                series_den(n + 1) > 0,
                one() == 0x1_0000_0000,
        ;
    }
}

/// One step of the series loses less than two raw units to rounding:
/// with `f = x / n` and `rounded = f * q / 2^32`, both rounded down, the
/// exact product `x * q` exceeds `n * 2^32 * rounded` by less than
/// `2 * n * 2^32`.
proof fn lemma_series_step_rounding(x: int, n: int, q: int)
    requires
        0 <= x,
        1 <= n,
        0 <= q <= one(),
    ensures
        0 <= x * q - n * one() * (((x / n) * q) / one()) <= 2 * n * one(),
{
    let o = one();
    let f = x / n;
    let rounded = (f * q) / o;
    assert(n * f <= x < n * f + n) by (nonlinear_arith)
        requires
            1 <= n,
            f == x / n,
    ;
    assert(0 <= f) by (nonlinear_arith)
        requires
            0 <= x,
            1 <= n,
            f == x / n,
    ;
    assert(rounded * o <= f * q < rounded * o + o) by (nonlinear_arith)
        requires
            rounded == (f * q) / o,
            o == 0x1_0000_0000,
    ;
    assert(n * o * rounded <= x * q) by (nonlinear_arith)
        requires
            rounded * o <= f * q,
            n * f <= x,
            0 <= q,
            1 <= n,
            0 <= f,
    {
        assert(n * (rounded * o) <= n * (f * q));
        assert((n * f) * q <= x * q);
    }
    assert(x * q - n * o * rounded <= 2 * n * o) by (nonlinear_arith)
        requires
            f * q < rounded * o + o,
            x < n * f + n,
            0 <= q <= o,
            1 <= n,
            0 <= f,
    {
        assert(n * (f * q) < n * (rounded * o + o));
        assert(x * q <= (n * f + n) * q);
        assert(n * q <= n * o);
    }
}

/// Accuracy of the series. For arguments up to one half, each tail of the
/// series lies within four raw units of its exact value, the fraction
/// `series_num / series_den`.
pub proof fn law_series_accuracy(x: int, n: int)
    requires
        0 <= x <= half(),
        1 <= n <= SERIES_TERMS + 1,
    ensures
        -4 * series_den(n) <= series_tail(x, n) * series_den(n) - series_num(x, n) <= 4
            * series_den(n),
    decreases SERIES_TERMS + 1 - n,
{
    if n <= SERIES_TERMS {
        let o = one();
        law_series_accuracy(x, n + 1);
        lemma_series_tail_range(x, n + 1);
        lemma_series_den_positive(n + 1);
        let q = series_tail(x, n + 1);
        let den = series_den(n + 1);
        let num = series_num(x, n + 1);
        let rounded = ((x / n) * q) / o;
        lemma_series_step_rounding(x, n, q);
        let slack = x * q - n * o * rounded;
        let gap = q * den - num;
        let whole = n * o * den;
        assert((o - rounded) * whole == o * whole - rounded * whole) by (nonlinear_arith);
        assert(rounded * whole == (n * o * rounded) * den) by (nonlinear_arith)
            requires
                whole == n * o * den,
        ;
        assert(slack * den == (x * q) * den - (n * o * rounded) * den) by (nonlinear_arith)
            requires
                slack == x * q - n * o * rounded,
        ;
        assert(x * gap == (x * q) * den - x * num) by (nonlinear_arith)
            requires
                gap == q * den - num,
        ;
        assert(series_tail(x, n) * series_den(n) - series_num(x, n) == slack * den - x * gap);
        assert(-4 * (n * o * den) <= slack * den - x * gap <= 4 * (n * o * den))
            by (nonlinear_arith)
            requires
                0 <= slack <= 2 * n * o,
                -4 * den <= gap <= 4 * den,
                0 <= x,
                2 * x <= o,
                1 <= n,
                den > 0,
                o == 0x1_0000_0000,
        {
            assert(0 <= slack * den <= (2 * n * o) * den);
            assert(-(x * (4 * den)) <= x * gap <= x * (4 * den));
            assert(x * (4 * den) <= (2 * n * o) * den) by {
                assert(4 * x <= 2 * n * o);
                assert((4 * x) * den <= (2 * n * o) * den);
            }
        }
    }
}

/// For arguments up to one half the decay lies between the lines `1 - x`
/// and `1 - 3x/4`.
pub proof fn lemma_series_bounds(x: int)
    requires
        0 <= x <= half(),
    ensures
        one() - x <= series_tail(x, 1) <= one() - (3 * x) / 4,
{
    reveal_with_fuel(series_tail, 3);
    lemma_series_tail_range(x, 3);
    let q3 = series_tail(x, 3);
    let q2 = series_tail(x, 2);
    let y = x / 2;
    assert(0 <= (y * q3) / one() <= y) by (nonlinear_arith)
        requires
            0 <= q3 <= one(),
            0 <= y,
            one() == 0x1_0000_0000,
    {
        assert(0 <= y * q3 <= y * one());
    }
    assert(3 * 0x4000_0000 <= q2 <= one());
    assert((3 * x) / 4 <= (x * q2) / one() <= x) by (nonlinear_arith)
        requires
            3 * 0x4000_0000 <= q2 <= one(),
            0 <= x,
            one() == 0x1_0000_0000,
    {
        assert(x * (3 * 0x4000_0000) <= x * q2 <= x * one());
    }
}

/// The decay never falls below the line `1 - x`.
pub proof fn lemma_exp_decay_above_line(x: int)
    requires
        0 <= x,
    ensures
        one() - x <= exp_decay(x),
    decreases x,
{
    lemma_exp_decay_range(x);
    if x <= 0 {
    } else if x <= half() {
        lemma_series_bounds(x);
    } else if x < one() {
        let y = x / 2;
        let h = exp_decay(y);
        lemma_exp_decay_above_line(y);
        assert(one() - x <= (h * h) / one()) by (nonlinear_arith)
            requires
                0 < one() - y <= h,
                0x4000_0000 <= y,
                2 * y <= x,
                one() == 0x1_0000_0000,
        {
            assert((one() - y) * (one() - y) <= h * h);
            assert((one() - y) * (one() - y) == one() * one() - 2 * y * one() + y * y);
            assert(y * y >= 0);
            assert(one() * (one() - x) <= h * h);
        }
    }
}

/// The lower end of the `j`-th band of arguments: a quarter, doubled `j`
/// times.
pub open spec fn band_low(j: nat) -> int
    decreases j,
{
    if j == 0 {
        0x4000_0000
    } else {
        2 * band_low((j - 1) as nat)
    }
}

/// A bound on the decay over the `j`-th band: thirteen sixteenths, squared
/// `j` times.
pub open spec fn band_bound(j: nat) -> int
    decreases j,
{
    if j == 0 {
        0xd000_0000
    } else {
        let b = band_bound((j - 1) as nat);
        (b * b) / one()
    }
}

/// Over the `j`-th band the decay stays below the band's bound.
pub proof fn lemma_exp_decay_band(x: int, j: nat)
    requires
        band_low(j) <= x <= 2 * band_low(j),
    ensures
        0 <= exp_decay(x) <= band_bound(j),
    decreases j,
{
    lemma_exp_decay_range(x);
    reveal_with_fuel(band_low, 2);
    reveal_with_fuel(band_bound, 2);
    if x <= half() {
        lemma_series_bounds(x);
        assert(band_low(j) >= 0x4000_0000) by {
            lemma_band_low_grows(j);
        }
        if j > 0 {
            lemma_band_low_grows((j - 1) as nat);
            assert(j == 1);
            assert(0xd000_0000int * 0xd000_0000int / one() == 2835349504) by (nonlinear_arith)
                requires
                    one() == 0x1_0000_0000,
            ;
        }
    } else {
        assert(j > 0);
        let y = x / 2;
        let h = exp_decay(y);
        let b = band_bound((j - 1) as nat);
        lemma_exp_decay_band(y, (j - 1) as nat);
        assert((h * h) / one() <= (b * b) / one()) by (nonlinear_arith)
            requires
                0 <= h <= b,
                one() == 0x1_0000_0000,
        {
            assert(h * h <= b * b);
        }
    }
}

/// The bands start at a quarter and rise.
proof fn lemma_band_low_grows(j: nat)
    ensures
        band_low(j) >= 0x4000_0000,
        j >= 1 ==> band_low(j) >= 0x8000_0000,
        j >= 2 ==> band_low(j) >= 0x1_0000_0000,
    decreases j,
{
    if j > 0 {
        lemma_band_low_grows((j - 1) as nat);
    }
}

/// From thirty-two on the decay is exactly zero.
pub proof fn lemma_exp_decay_vanishes(x: int)
    requires
        32 * one() <= x,
    ensures
        exp_decay(x) == 0,
    decreases x,
{
    if x <= 64 * one() {
        reveal_with_fuel(band_low, 8);
        assert(band_low(7) == 32 * one());
        lemma_band_bound_vanishes();
        lemma_exp_decay_band(x, 7);
    } else {
        lemma_exp_decay_vanishes(x / 2);
        assert(0int * 0int / one() == 0) by (nonlinear_arith)
            requires
                one() == 0x1_0000_0000,
        ;
    }
}

/// The bound of the seventh band is zero.
proof fn lemma_band_bound_vanishes()
    ensures
        band_bound(7) == 0,
{
    reveal_with_fuel(band_bound, 2);
    assert(band_bound(0) == 3489660928);
    assert(band_bound(1) == 2835349504) by (nonlinear_arith)
        requires
            band_bound(1) == (3489660928int * 3489660928int) / 0x1_0000_0000,
    ;
    assert(band_bound(2) == 1871773696) by (nonlinear_arith)
        requires
            band_bound(2) == (2835349504int * 2835349504int) / 0x1_0000_0000,
    ;
    assert(band_bound(3) == 815730721) by (nonlinear_arith)
        requires
            band_bound(3) == (1871773696int * 1871773696int) / 0x1_0000_0000,
    ;
    assert(band_bound(4) == 154929377) by (nonlinear_arith)
        requires
            band_bound(4) == (815730721int * 815730721int) / 0x1_0000_0000,
    ;
    assert(band_bound(5) == 5588659) by (nonlinear_arith)
        requires
            band_bound(5) == (154929377int * 154929377int) / 0x1_0000_0000,
    ;
    assert(band_bound(6) == 7272) by (nonlinear_arith)
        requires
            band_bound(6) == (5588659int * 5588659int) / 0x1_0000_0000,
    ;
    assert(band_bound(7) == 0) by (nonlinear_arith)
        requires
            band_bound(7) == (7272int * 7272int) / 0x1_0000_0000,
    ;
}

/// The acceleration ramp never exceeds one, starts at zero, and is
/// non-negative for non-negative rates.
pub proof fn lemma_accel_ramp_range(t: int, k: int)
    ensures
        accel_ramp(t, k) <= one(),
        t <= 0 ==> accel_ramp(t, k) == 0,
        0 <= k ==> 0 <= accel_ramp(t, k),
{
    let x = sat_mul(sat_neg(k), max_int(t, 0));
    lemma_exp_decay_range(-x);
    lemma_exp_decay_range(x);
    if x > 0 {
        lemma_reciprocal_nonneg(exp_decay(x));
    }
    if t <= 0 {
        lemma_mul_zero(sat_neg(k));
    }
    if 0 <= k {
        lemma_mul_nonpos(sat_neg(k), max_int(t, 0));
    }
}

/// For a non-negative rate, once rate times time reaches thirty-two the
/// acceleration ramp is exactly one.
pub proof fn lemma_accel_ramp_saturates(t: int, k: int)
    requires
        0 <= k,
        in_range(k),
        0 <= t,
        k * t >= 32 * one() * one(),
    ensures
        accel_ramp(t, k) == one(),
{
    let x = sat_mul(sat_neg(k), t);
    assert((-k) * t == -(k * t)) by (nonlinear_arith);
    assert((k * t) / one() >= 32 * one()) by (nonlinear_arith)
        requires
            k * t >= 32 * one() * one(),
            one() == 0x1_0000_0000,
    ;
    assert(x <= -32 * one());
    lemma_exp_decay_vanishes(-x);
}

/// For a non-negative rate the acceleration ramp stays below the line of
/// slope `k` through zero: the speed never rises faster than at the start.
pub proof fn law_accel_ramp_below_line(t: int, k: int)
    requires
        0 <= k,
        in_range(k),
        0 <= t,
    ensures
        accel_ramp(t, k) <= sat_mul(k, t),
{
    let x = sat_mul(sat_neg(k), t);
    assert((-k) * t == -(k * t)) by (nonlinear_arith);
    assert(0 <= k * t && 0 <= (k * t) / one()) by (nonlinear_arith)
        requires
            0 <= k,
            0 <= t,
            one() == 0x1_0000_0000,
    ;
    if k * t == 0 {
        assert(0int / one() == 0) by (nonlinear_arith)
            requires
                one() == 0x1_0000_0000,
        ;
    }
    lemma_exp_decay_above_line(-x);
    lemma_exp_decay_range(-x);
}

/// The deceleration ramp is never negative and is one at time zero; for
/// non-negative rates it is above zero and at most one.
pub proof fn lemma_decel_ramp_range(t: int, a: int)
    ensures
        0 <= decel_ramp(t, a),
        t <= 0 ==> decel_ramp(t, a) == one(),
        0 <= a ==> 0 < decel_ramp(t, a) <= one(),
{
    let u = sat_add(one(), sat_mul(a, max_int(t, 0)));
    if u >= 0 {
        lemma_mul_nonneg(u, u);
    } else {
        assert(u * u == (-u) * (-u)) by (nonlinear_arith);
        lemma_mul_nonneg(-u, -u);
    }
    lemma_reciprocal_nonneg(sat_mul(u, u));
    if t <= 0 {
        lemma_mul_zero(a);
        lemma_mul_one(one());
        lemma_reciprocal_one();
    }
    if 0 <= a {
        lemma_mul_nonneg(a, max_int(t, 0));
        assert(u >= one());
        lemma_mul_monotone(u, one(), u);
        lemma_mul_monotone(one(), one(), u);
        lemma_mul_one(one());
        lemma_reciprocal_at_most_one(sat_mul(u, u));
        lemma_reciprocal_positive(sat_mul(u, u));
    }
}

/// For a non-negative rate the deceleration ramp does not grow with time.
pub proof fn lemma_decel_ramp_antitone(t1: int, t2: int, a: int)
    requires
        t1 <= t2,
        0 <= a,
    ensures
        decel_ramp(t2, a) <= decel_ramp(t1, a),
{
    let early = sat_mul(a, max_int(t1, 0));
    let late = sat_mul(a, max_int(t2, 0));
    lemma_mul_monotone(a, max_int(t1, 0), max_int(t2, 0));
    lemma_mul_nonneg(a, max_int(t1, 0));
    let u1 = sat_add(one(), early);
    let u2 = sat_add(one(), late);
    lemma_add_monotone(one(), early, late);
    assert(one() <= u1 <= u2);
    lemma_mul_monotone(u1, u1, u2);
    lemma_mul_monotone(u2, u1, u2);
    lemma_mul_monotone(one(), one(), u1);
    lemma_mul_monotone(u1, one(), u1);
    lemma_mul_one(one());
    assert(one() <= sat_mul(u1, u1) <= sat_mul(u2, u2));
    lemma_reciprocal_antitone(sat_mul(u1, u1), sat_mul(u2, u2));
}

fn series(x: u64) -> (r: u64)
    requires
        x <= half(),
    ensures
        r == series_tail(x as int, 1),
        r <= one(),
{
    let mut q: u64 = 0x1_0000_0000;
    let mut n: u64 = SERIES_TERMS;
    while n >= 1
        invariant
            n <= SERIES_TERMS,
            x <= half(),
            q == series_tail(x as int, n + 1),
            q <= one(),
        decreases n,
    {
        let f: u64 = x / n;
        proof {
            lemma_series_tail_range(x as int, n as int);
            assert(f <= half()) by (nonlinear_arith)
                requires
                    f == x / n,
                    x <= half(),
                    1 <= n,
            ;
            assert(f * q <= 0x8000_0000 * 0x1_0000_0000) by (nonlinear_arith)
                requires
                    f <= 0x8000_0000,
                    q <= 0x1_0000_0000,
            ;
        }
        q = 0x1_0000_0000 - (f * q) / 0x1_0000_0000;
        n = n - 1;
    }
    q
}

fn decay(x: u64) -> (r: u64)
    ensures
        r == exp_decay(x as int),
        r <= one(),
    decreases x,
{
    proof {
        lemma_exp_decay_range(x as int);
    }
    if x == 0 {
        0x1_0000_0000
    } else if x <= 0x8000_0000 {
        series(x)
    } else {
        let h: u128 = decay(x / 2) as u128;
        assert(h * h <= 0x1_0000_0000 * 0x1_0000_0000) by (nonlinear_arith)
            requires
                h <= 0x1_0000_0000,
        ;
        ((h * h) / 0x1_0000_0000) as u64
    }
}

/// The exponential `e^x`.
pub fn exp(x: Fixed) -> (r: Fixed)
    ensures
        r@ == exp_spec(x@),
{
    if x.raw <= 0 {
        let m: u64 = (-(x.raw as i128)) as u64;
        Fixed { raw: decay(m) as i64 }
    } else {
        let d = decay(x.raw as u64);
        Fixed::one().div(Fixed { raw: d as i64 })
    }
}

/// The acceleration ramp `1 - e^(-k * max(t, 0))`: zero at time zero and
/// rising toward one.
pub fn accel_exp(t: Fixed, k: Fixed) -> (r: Fixed)
    ensures
        r@ == accel_ramp(t@, k@),
{
    let elapsed = t.max(Fixed::zero());
    Fixed::one().sub(exp(k.neg().mul(elapsed)))
}

/// The deceleration ramp `1 / (1 + a * max(t, 0))^2`: one at time zero and
/// falling toward zero.
pub fn inv_square(t: Fixed, a: Fixed) -> (r: Fixed)
    ensures
        r@ == decel_ramp(t@, a@),
{
    let elapsed = t.max(Fixed::zero());
    let u = Fixed::one().add(a.mul(elapsed));
    Fixed::one().div(u.mul(u))
}

} // verus!

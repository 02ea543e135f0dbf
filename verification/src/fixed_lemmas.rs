//! Facts about the saturating fixed-point operations.

use crate::fixed::{in_range, one, raw_max, sat_add, sat_div, sat_mul, trunc_div};
use vstd::prelude::*;

verus! {

/// Rounding toward zero keeps the order of the dividends.
pub proof fn lemma_trunc_div_monotone(a: int, b: int, d: int)
    requires
        a <= b,
        d > 0,
    ensures
        trunc_div(a, d) <= trunc_div(b, d),
{
    if a >= 0 {
        assert(a / d <= b / d) by (nonlinear_arith)
            requires
                0 <= a <= b,
                d > 0,
        ;
    } else if b >= 0 {
        assert((-a) / d >= 0 && b / d >= 0) by (nonlinear_arith)
            requires
                a < 0,
                b >= 0,
                d > 0,
        ;
    } else {
        assert((-b) / d <= (-a) / d) by (nonlinear_arith)
            requires
                0 < -b <= -a,
                d > 0,
        ;
    }
}

/// A product with zero is zero.
pub proof fn lemma_mul_zero(a: int)
    ensures
        sat_mul(a, 0) == 0,
        sat_mul(0, a) == 0,
{
    assert(a * 0 == 0 && 0 * a == 0) by (nonlinear_arith);
}

/// One is neutral for the product.
pub proof fn lemma_mul_one(a: int)
    requires
        in_range(a),
    ensures
        sat_mul(a, one()) == a,
        sat_mul(one(), a) == a,
{
    assert(a * one() == one() * a) by (nonlinear_arith);
    if a >= 0 {
        assert((a * one()) / one() == a) by (nonlinear_arith)
            requires
                one() == 0x1_0000_0000,
        ;
    } else {
        assert((-(a * one())) / one() == -a) by (nonlinear_arith)
            requires
                one() == 0x1_0000_0000,
        ;
        assert(a * one() < 0) by (nonlinear_arith)
            requires
                a < 0,
                one() == 0x1_0000_0000,
        ;
    }
}

/// A product of two non-negative numbers is non-negative.
pub proof fn lemma_mul_nonneg(a: int, b: int)
    requires
        0 <= a,
        0 <= b,
    ensures
        0 <= sat_mul(a, b),
{
    assert(0 <= (a * b) / one() && a * b >= 0) by (nonlinear_arith)
        requires
            0 <= a,
            0 <= b,
            one() == 0x1_0000_0000,
    ;
}

/// A product of a non-positive and a non-negative number is non-positive.
pub proof fn lemma_mul_nonpos(a: int, b: int)
    requires
        a <= 0,
        0 <= b,
    ensures
        sat_mul(a, b) <= 0,
        sat_mul(b, a) <= 0,
{
    assert(a * b == b * a) by (nonlinear_arith);
    assert(a * b <= 0 && 0 <= (-(a * b)) / one()) by (nonlinear_arith)
        requires
            a <= 0,
            0 <= b,
            one() == 0x1_0000_0000,
    ;
    if a * b == 0 {
        assert(0int / one() == 0) by (nonlinear_arith)
            requires
                one() == 0x1_0000_0000,
        ;
    }
}

/// The product grows with its second factor when the first is
/// non-negative.
pub proof fn lemma_mul_monotone(a: int, b1: int, b2: int)
    requires
        0 <= a,
        b1 <= b2,
    ensures
        sat_mul(a, b1) <= sat_mul(a, b2),
        sat_mul(b1, a) <= sat_mul(b2, a),
{
    assert(a * b1 <= a * b2) by (nonlinear_arith)
        requires
            0 <= a,
            b1 <= b2,
    ;
    assert(a * b1 == b1 * a && a * b2 == b2 * a) by (nonlinear_arith);
    lemma_trunc_div_monotone(a * b1, a * b2, one());
}

/// Multiplying a non-negative number by a factor between zero and one does
/// not increase it.
pub proof fn lemma_mul_contracts(a: int, b: int)
    requires
        0 <= a,
        in_range(a),
        0 <= b <= one(),
    ensures
        0 <= sat_mul(a, b) <= a,
{
    lemma_mul_nonneg(a, b);
    lemma_mul_monotone(a, b, one());
    lemma_mul_one(a);
}

/// Multiplying a non-positive number by a factor between zero and one does
/// not decrease it, and leaves it non-positive.
pub proof fn lemma_mul_contracts_nonpos(a: int, b: int)
    requires
        a <= 0,
        in_range(a),
        0 <= b <= one(),
    ensures
        a <= sat_mul(a, b) <= 0,
{
    lemma_mul_nonpos(a, b);
    assert(a * one() <= a * b) by (nonlinear_arith)
        requires
            a <= 0,
            b <= one(),
    ;
    lemma_trunc_div_monotone(a * one(), a * b, one());
    lemma_mul_one(a);
}

/// The reciprocal of a non-negative number is non-negative.
pub proof fn lemma_reciprocal_nonneg(d: int)
    requires
        0 <= d,
    ensures
        0 <= sat_div(one(), d),
{
    if d > 0 {
        assert(0 <= (one() * one()) / d) by (nonlinear_arith)
            requires
                d > 0,
                one() == 0x1_0000_0000,
        ;
    }
}

/// The reciprocal of one is one.
pub proof fn lemma_reciprocal_one()
    ensures
        sat_div(one(), one()) == one(),
{
    assert((one() * one()) / one() == one()) by (nonlinear_arith)
        requires
            one() == 0x1_0000_0000,
    ;
}

/// The reciprocal shrinks as a positive number grows.
pub proof fn lemma_reciprocal_antitone(d1: int, d2: int)
    requires
        0 < d1 <= d2,
    ensures
        sat_div(one(), d2) <= sat_div(one(), d1),
{
    let n = one() * one();
    assert(n / d2 <= n / d1) by (nonlinear_arith)
        requires
            0 < d1 <= d2,
            n == 0x1_0000_0000_0000_0000,
    {
        let q2 = n / d2;
        assert(q2 * d2 <= n);
        assert(0 <= q2);
        assert(q2 * d1 <= q2 * d2);
        assert(q2 * d1 <= n);
        if n / d1 < q2 {
            assert((n / d1 + 1) * d1 > n);
            assert((n / d1 + 1) * d1 <= q2 * d1);
        }
    }
}

/// The reciprocal of a number that is at least one is at most one.
pub proof fn lemma_reciprocal_at_most_one(d: int)
    requires
        one() <= d,
    ensures
        0 <= sat_div(one(), d) <= one(),
{
    lemma_reciprocal_nonneg(d);
    lemma_reciprocal_antitone(one(), d);
    lemma_reciprocal_one();
}

/// The reciprocal of a positive number that the representation can hold is
/// above zero.
pub proof fn lemma_reciprocal_positive(d: int)
    requires
        0 < d <= raw_max(),
    ensures
        0 < sat_div(one(), d),
{
    let n = one() * one();
    assert(n / d >= 2) by (nonlinear_arith)
        requires
            0 < d <= 0x7fff_ffff_ffff_ffff,
            n == 0x1_0000_0000_0000_0000,
    {
        if n / d < 2 {
            assert((n / d + 1) * d > n);
            assert((n / d + 1) * d <= 2 * d);
        }
    }
}

/// A saturating sum grows with its second summand.
pub proof fn lemma_add_monotone(a: int, b1: int, b2: int)
    requires
        b1 <= b2,
    ensures
        sat_add(a, b1) <= sat_add(a, b2),
{
}

} // verus!

//! Planar vectors over [`Fixed`] components.
//!
//! The mathematical model of a [`Vec2`] is a [`Vec2Model`]: its pair of raw
//! integers. Lengths are integer square roots of the sum of the squared raw
//! components, which is the raw integer of the Euclidean length rounded down.

use crate::fixed::{one, sat_add, sat_mul, saturate, trunc_div, Fixed};
use vstd::prelude::*;

verus! {

/// Lengths below this raw value (about 0.00024) count as zero when a vector
/// is normalised.
pub const MIN_NORMALIZE_LEN: u64 = 0x10_0000;

/// How far the squared raw length of a unit vector may lie from `2^64`:
/// a relative deviation of `2^-18`.
pub open spec fn unit_tolerance() -> int {
    0x4000_0000_0000
}

/// The model of a vector: its raw components.
pub struct Vec2Model {
    pub x: int,
    pub y: int,
}

/// The zero vector.
pub open spec fn zero_vec() -> Vec2Model {
    Vec2Model { x: 0, y: 0 }
}

/// Whether `r` is the integer square root of `n`, rounded down.
pub open spec fn is_floor_sqrt(n: int, r: int) -> bool {
    0 <= r && r * r <= n < (r + 1) * (r + 1)
}

/// The integer square root of `n`, rounded down (for `n >= 0`).
pub open spec fn floor_sqrt(n: int) -> int {
    choose|r: int| is_floor_sqrt(n, r)
}

/// The squared raw length of `v`.
pub open spec fn norm_squared(v: Vec2Model) -> int {
    v.x * v.x + v.y * v.y
}

/// The raw length of `v`, rounded down.
pub open spec fn length_raw(v: Vec2Model) -> int {
    floor_sqrt(norm_squared(v))
}

/// Whether `v` has unit length up to the rounding of the representation.
pub open spec fn is_unit(v: Vec2Model) -> bool {
    &&& one() * one() - unit_tolerance() <= norm_squared(v) <= one() * one() + unit_tolerance()
    &&& -one() <= v.x <= one()
    &&& -one() <= v.y <= one()
}

/// The fixed-point dot product of `a` and `b`.
pub open spec fn dot_spec(a: Vec2Model, b: Vec2Model) -> int {
    sat_add(sat_mul(a.x, b.x), sat_mul(a.y, b.y))
}

/// `v` with both components multiplied by `k`.
pub open spec fn scale_spec(v: Vec2Model, k: int) -> Vec2Model {
    Vec2Model { x: sat_mul(v.x, k), y: sat_mul(v.y, k) }
}

/// `v` divided by its length, or the zero vector where the length is below
/// [`MIN_NORMALIZE_LEN`].
pub open spec fn normalize_or_zero_spec(v: Vec2Model) -> Vec2Model {
    let len = length_raw(v);
    if len < MIN_NORMALIZE_LEN {
        zero_vec()
    } else {
        Vec2Model { x: trunc_div(v.x * one(), len), y: trunc_div(v.y * one(), len) }
    }
}

/// An integer has at most one square root rounded down.
pub proof fn lemma_floor_sqrt_unique(n: int, r1: int, r2: int)
    requires
        is_floor_sqrt(n, r1),
        is_floor_sqrt(n, r2),
    ensures
        r1 == r2,
{
    if r1 < r2 {
        assert((r1 + 1) * (r1 + 1) <= r2 * r2) by (nonlinear_arith)
            requires
                0 <= r1,
                r1 + 1 <= r2,
        ;
    } else if r2 < r1 {
        assert((r2 + 1) * (r2 + 1) <= r1 * r1) by (nonlinear_arith)
            requires
                0 <= r2,
                r2 + 1 <= r1,
        ;
    }
}

/// A witnessed square root is the square root.
pub proof fn lemma_floor_sqrt_is(n: int, r: int)
    requires
        is_floor_sqrt(n, r),
    ensures
        floor_sqrt(n) == r,
{
    lemma_floor_sqrt_unique(n, r, floor_sqrt(n));
}

/// The integer square root of `n`, rounded down.
pub fn isqrt(n: u128) -> (r: u64)
    ensures
        is_floor_sqrt(n as int, r as int),
        r == floor_sqrt(n as int),
{
    let mut lo: u128 = 0;
    let mut hi: u128 = 0x1_0000_0000_0000_0000;
    assert(0x1_0000_0000_0000_0000int * 0x1_0000_0000_0000_0000int
        == 0x1_0000_0000_0000_0000_0000_0000_0000_0000int) by (nonlinear_arith);
    while hi - lo > 1
        invariant
            lo < hi <= 0x1_0000_0000_0000_0000,
            lo * lo <= n < hi * hi,
        decreases hi - lo,
    {
        let mid: u128 = lo + (hi - lo) / 2;
        assert(mid * mid <= 0xffff_ffff_ffff_ffff * 0xffff_ffff_ffff_ffff) by (nonlinear_arith)
            requires
                0 <= mid <= 0xffff_ffff_ffff_ffff,
        ;
        if mid * mid <= n {
            lo = mid;
        } else {
            hi = mid;
        }
    }
    proof {
        lemma_floor_sqrt_is(n as int, lo as int);
    }
    lo as u64
}

/// A planar vector.
#[derive(Clone, Copy, Debug, PartialEq, Eq, Structural)]
pub struct Vec2 {
    pub x: Fixed,
    pub y: Fixed,
}

impl View for Vec2 {
    type V = Vec2Model;

    open spec fn view(&self) -> Vec2Model {
        Vec2Model { x: self.x@, y: self.y@ }
    }
}

fn magnitude(v: i64) -> (r: u128)
    ensures
        r == if v < 0 {
            -(v as int)
        } else {
            v as int
        },
        r <= 0x8000_0000_0000_0000,
{
    if v < 0 {
        (-(v as i128)) as u128
    } else {
        v as u128
    }
}

impl Vec2 {
    /// The vector with the given components.
    pub fn new(x: Fixed, y: Fixed) -> (r: Vec2)
        ensures
            r@ == (Vec2Model { x: x@, y: y@ }),
    {
        Vec2 { x, y }
    }

    /// The zero vector.
    pub fn zero() -> (r: Vec2)
        ensures
            r@ == zero_vec(),
    {
        Vec2 { x: Fixed::zero(), y: Fixed::zero() }
    }

    /// The unit vector along the second axis.
    pub fn unit_y() -> (r: Vec2)
        ensures
            r@ == (Vec2Model { x: 0, y: one() }),
    {
        Vec2 { x: Fixed::zero(), y: Fixed::one() }
    }

    /// Whether both components are zero.
    pub fn is_zero(self) -> (r: bool)
        ensures
            r == (self@ == zero_vec()),
    {
        self.x.raw == 0 && self.y.raw == 0
    }

    /// The dot product with `other`.
    pub fn dot(self, other: Vec2) -> (r: Fixed)
        ensures
            r@ == dot_spec(self@, other@),
    {
        self.x.mul(other.x).add(self.y.mul(other.y))
    }

    /// The vector with both components multiplied by `k`.
    pub fn scale(self, k: Fixed) -> (r: Vec2)
        ensures
            r@ == scale_spec(self@, k@),
    {
        Vec2 { x: self.x.mul(k), y: self.y.mul(k) }
    }

    fn norm_squared_wide(self) -> (r: u128)
        ensures
            r == norm_squared(self@),
    {
        let ax = magnitude(self.x.raw);
        let ay = magnitude(self.y.raw);
        assert(ax * ax <= 0x4000_0000_0000_0000_0000_0000_0000_0000) by (nonlinear_arith)
            requires
                0 <= ax <= 0x8000_0000_0000_0000,
        ;
        assert(ay * ay <= 0x4000_0000_0000_0000_0000_0000_0000_0000) by (nonlinear_arith)
            requires
                0 <= ay <= 0x8000_0000_0000_0000,
        ;
        assert(ax * ax == self.x@ * self.x@) by (nonlinear_arith)
            requires
                ax == self.x@ || ax == -self.x@,
        ;
        assert(ay * ay == self.y@ * self.y@) by (nonlinear_arith)
            requires
                ay == self.y@ || ay == -self.y@,
        ;
        ax * ax + ay * ay
    }

    /// The length, rounded down and saturated.
    pub fn length(self) -> (r: Fixed)
        ensures
            r@ == saturate(length_raw(self@)),
    {
        let len = isqrt(self.norm_squared_wide());
        if len > 0x7fff_ffff_ffff_ffff {
            Fixed { raw: 0x7fff_ffff_ffff_ffff }
        } else {
            Fixed { raw: len as i64 }
        }
    }

    /// The vector divided by its length, or the zero vector where the length
    /// is below [`MIN_NORMALIZE_LEN`].
    pub fn normalize_or_zero(self) -> (r: Vec2)
        ensures
            r@ == normalize_or_zero_spec(self@),
    {
        let len = isqrt(self.norm_squared_wide());
        if len < MIN_NORMALIZE_LEN {
            Vec2::zero()
        } else {
            proof {
                lemma_component_bound(self@.x, self@.y, len as int);
                lemma_component_bound(self@.y, self@.x, len as int);
                lemma_quotient_bound(self@.x, len as int);
                lemma_quotient_bound(self@.y, len as int);
            }
            let d: i128 = len as i128;
            let x: i128 = (self.x.raw as i128 * 0x1_0000_0000) / d;
            let y: i128 = (self.y.raw as i128 * 0x1_0000_0000) / d;
            Vec2 { x: Fixed { raw: x as i64 }, y: Fixed { raw: y as i64 } }
        }
    }
}

/// A component is no longer than the vector.
pub proof fn lemma_component_bound(a: int, b: int, len: int)
    requires
        is_floor_sqrt(a * a + b * b, len),
    ensures
        -len <= a <= len,
{
    assert(-len <= a <= len) by (nonlinear_arith)
        requires
            0 <= len,
            a * a + b * b < (len + 1) * (len + 1),
    {
        assert(b * b >= 0);
        if a > len {
            assert(a * a >= (len + 1) * (len + 1));
        }
        if a < -len {
            assert((-a) * (-a) >= (len + 1) * (len + 1));
            assert((-a) * (-a) == a * a);
        }
    }
}

/// Dividing a component by a length that bounds it gives at most one.
pub proof fn lemma_quotient_bound(a: int, len: int)
    requires
        0 < len,
        -len <= a <= len,
    ensures
        -one() <= trunc_div(a * one(), len) <= one(),
{
    if a >= 0 {
        assert(0 <= (a * one()) / len <= one()) by (nonlinear_arith)
            requires
                0 < len,
                0 <= a <= len,
                one() == 0x1_0000_0000,
        ;
    } else {
        assert(0 <= (-(a * one())) / len <= one()) by (nonlinear_arith)
            requires
                0 < len,
                0 < -a <= len,
                one() == 0x1_0000_0000,
        ;
    }
}

/// Every natural number has a square root rounded down.
pub proof fn lemma_floor_sqrt_exists(n: int)
    requires
        0 <= n,
    ensures
        is_floor_sqrt(n, floor_sqrt(n)),
    decreases n,
{
    if n == 0 {
        assert(is_floor_sqrt(0, 0));
    } else {
        lemma_floor_sqrt_exists(n - 1);
        let r = floor_sqrt(n - 1);
        if n < (r + 1) * (r + 1) {
            assert(is_floor_sqrt(n, r));
        } else {
            assert((r + 1) * (r + 1) < (r + 2) * (r + 2)) by (nonlinear_arith)
                requires
                    0 <= r,
            ;
            assert(is_floor_sqrt(n, r + 1));
        }
    }
}

/// The magnitude of a quotient rounded toward zero is the quotient of the
/// magnitudes.
proof fn lemma_trunc_div_magnitude(a: int, d: int)
    requires
        d > 0,
    ensures
        a >= 0 ==> trunc_div(a, d) == a / d,
        a < 0 ==> trunc_div(a, d) == -((-a) / d),
        trunc_div(a, d) * trunc_div(a, d) == (abs_int(a) / d) * (abs_int(a) / d),
{
    let q = abs_int(a) / d;
    assert((-q) * (-q) == q * q) by (nonlinear_arith);
}

/// The magnitude of an integer.
pub open spec fn abs_int(a: int) -> int {
    if a < 0 {
        -a
    } else {
        a
    }
}

/// Rounding a vector's components down after dividing by its rounded-down
/// length keeps the squared length within the unit tolerance.
proof fn lemma_unit_bounds(ax: int, ay: int, len: int, qx: int, qy: int)
    requires
        0 <= ax,
        0 <= ay,
        MIN_NORMALIZE_LEN <= len,
        len * len <= ax * ax + ay * ay < (len + 1) * (len + 1),
        qx == (ax * one()) / len,
        qy == (ay * one()) / len,
    ensures
        one() * one() - unit_tolerance() <= qx * qx + qy * qy <= one() * one() + unit_tolerance(),
{
    let o = one();
    let n2 = ax * ax + ay * ay;
    assert(0 <= qx && qx * len <= ax * o < (qx + 1) * len) by (nonlinear_arith)
        requires
            0 <= ax,
            0 < len,
            o == 0x1_0000_0000,
            qx == (ax * o) / len,
    ;
    assert(0 <= qy && qy * len <= ay * o < (qy + 1) * len) by (nonlinear_arith)
        requires
            0 <= ay,
            0 < len,
            o == 0x1_0000_0000,
            qy == (ay * o) / len,
    ;
    // Squares of the bounds.
    assert((qx * len) * (qx * len) <= (ax * o) * (ax * o)) by (nonlinear_arith)
        requires
            0 <= qx * len <= ax * o,
    ;
    assert((qy * len) * (qy * len) <= (ay * o) * (ay * o)) by (nonlinear_arith)
        requires
            0 <= qy * len <= ay * o,
    ;
    assert((ax * o) * (ax * o) < ((qx + 1) * len) * ((qx + 1) * len)) by (nonlinear_arith)
        requires
            0 <= ax * o < (qx + 1) * len,
    ;
    assert((ay * o) * (ay * o) < ((qy + 1) * len) * ((qy + 1) * len)) by (nonlinear_arith)
        requires
            0 <= ay * o < (qy + 1) * len,
    ;
    let l2 = len * len;
    let o2 = o * o;
    assert(l2 > 0) by (nonlinear_arith)
        requires
            l2 == len * len,
            len > 0,
    ;
    assert(ax <= len && ay <= len) by {
        lemma_component_bound(ax, ay, len);
        lemma_component_bound(ay, ax, len);
    }
    assert((qx * len) * (qx * len) == (qx * qx) * l2) by (nonlinear_arith)
        requires
            l2 == len * len,
    ;
    assert((qy * len) * (qy * len) == (qy * qy) * l2) by (nonlinear_arith)
        requires
            l2 == len * len,
    ;
    assert((ax * o) * (ax * o) == (ax * ax) * o2) by (nonlinear_arith)
        requires
            o2 == o * o,
    ;
    assert((ay * o) * (ay * o) == (ay * ay) * o2) by (nonlinear_arith)
        requires
            o2 == o * o,
    ;
    assert(((qx + 1) * len) * ((qx + 1) * len) == ((qx + 1) * (qx + 1)) * l2) by (nonlinear_arith)
        requires
            l2 == len * len,
    ;
    assert(((qy + 1) * len) * ((qy + 1) * len) == ((qy + 1) * (qy + 1)) * l2) by (nonlinear_arith)
        requires
            l2 == len * len,
    ;
    let s = qx * qx + qy * qy;
    let t = (qx + 1) * (qx + 1) + (qy + 1) * (qy + 1);
    assert(s * l2 == (qx * qx) * l2 + (qy * qy) * l2) by (nonlinear_arith)
        requires
            s == qx * qx + qy * qy,
    ;
    assert(t * l2 == ((qx + 1) * (qx + 1)) * l2 + ((qy + 1) * (qy + 1)) * l2) by (nonlinear_arith)
        requires
            t == (qx + 1) * (qx + 1) + (qy + 1) * (qy + 1),
    ;
    assert(n2 * o2 == (ax * ax) * o2 + (ay * ay) * o2) by (nonlinear_arith)
        requires
            n2 == ax * ax + ay * ay,
    ;
    assert(s * l2 <= n2 * o2 < t * l2);
    // Upper bound.
    assert(n2 * o2 < (len + 1) * (len + 1) * o2) by (nonlinear_arith)
        requires
            n2 < (len + 1) * (len + 1),
            o2 > 0,
    ;
    assert((len + 1) * (len + 1) * o2 <= (o2 + unit_tolerance()) * l2) by (nonlinear_arith)
        requires
            l2 == len * len,
            0x10_0000 <= len,
            o2 == 0x1_0000_0000_0000_0000,
            unit_tolerance() == 0x4000_0000_0000,
    ;
    assert(s <= o2 + unit_tolerance()) by (nonlinear_arith)
        requires
            s * l2 < (o2 + unit_tolerance()) * l2,
            l2 > 0,
    ;
    // Lower bound.
    assert(l2 * o2 <= n2 * o2) by (nonlinear_arith)
        requires
            l2 <= n2,
            o2 > 0,
    ;
    assert(t > o2) by (nonlinear_arith)
        requires
            l2 * o2 < t * l2,
            l2 > 0,
    ;
    assert(qx <= o) by (nonlinear_arith)
        requires
            qx * len <= ax * o,
            ax <= len,
            0 < len,
            0 < o,
            0 <= qx,
    {
        assert(ax * o <= len * o);
        if qx > o {
            assert(qx * len >= (o + 1) * len);
        }
    }
    assert(qy <= o) by (nonlinear_arith)
        requires
            qy * len <= ay * o,
            ay <= len,
            0 < len,
            0 < o,
            0 <= qy,
    {
        assert(ay * o <= len * o);
        if qy > o {
            assert(qy * len >= (o + 1) * len);
        }
    }
    assert(t == s + 2 * qx + 2 * qy + 2) by (nonlinear_arith)
        requires
            s == qx * qx + qy * qy,
            t == (qx + 1) * (qx + 1) + (qy + 1) * (qy + 1),
    ;
}

/// A vector that normalises to a non-zero vector normalises to a unit
/// vector, and it does so exactly when its length reaches
/// [`MIN_NORMALIZE_LEN`].
pub proof fn lemma_normalized_is_unit(v: Vec2Model)
    ensures
        length_raw(v) >= MIN_NORMALIZE_LEN ==> is_unit(normalize_or_zero_spec(v)),
        length_raw(v) < MIN_NORMALIZE_LEN ==> normalize_or_zero_spec(v) == zero_vec(),
        normalize_or_zero_spec(v) != zero_vec() ==> is_unit(normalize_or_zero_spec(v)),
        !is_unit(zero_vec()),
{
    let n2 = norm_squared(v);
    assert(v.x * v.x >= 0 && v.y * v.y >= 0) by (nonlinear_arith);
    lemma_floor_sqrt_exists(n2);
    let len = length_raw(v);
    if len >= MIN_NORMALIZE_LEN {
        let r = normalize_or_zero_spec(v);
        lemma_component_bound(v.x, v.y, len);
        lemma_component_bound(v.y, v.x, len);
        lemma_quotient_bound(v.x, len);
        lemma_quotient_bound(v.y, len);
        let ax = abs_int(v.x);
        let ay = abs_int(v.y);
        assert(ax * ax == v.x * v.x) by (nonlinear_arith)
            requires
                ax == v.x || ax == -v.x,
        ;
        assert(ay * ay == v.y * v.y) by (nonlinear_arith)
            requires
                ay == v.y || ay == -v.y,
        ;
        let qx = (ax * one()) / len;
        let qy = (ay * one()) / len;
        lemma_unit_bounds(ax, ay, len, qx, qy);
        lemma_trunc_div_magnitude(v.x * one(), len);
        lemma_trunc_div_magnitude(v.y * one(), len);
        assert(abs_int(v.x * one()) == ax * one()) by (nonlinear_arith)
            requires
                ax == abs_int(v.x),
                one() == 0x1_0000_0000,
        ;
        assert(abs_int(v.y * one()) == ay * one()) by (nonlinear_arith)
            requires
                ay == abs_int(v.y),
                one() == 0x1_0000_0000,
        ;
        assert(r.x * r.x == qx * qx);
        assert(r.y * r.y == qy * qy);
    }
}

/// A unit vector is long enough to be normalised.
pub proof fn lemma_unit_normalizes(v: Vec2Model)
    requires
        is_unit(v),
    ensures
        normalize_or_zero_spec(v) != zero_vec(),
        is_unit(normalize_or_zero_spec(v)),
{
    let n2 = norm_squared(v);
    lemma_floor_sqrt_exists(n2);
    let len = length_raw(v);
    if len < MIN_NORMALIZE_LEN {
        assert((len + 1) * (len + 1) <= 0x10_0000 * 0x10_0000) by (nonlinear_arith)
            requires
                0 <= len < 0x10_0000,
        ;
        assert(one() * one() == 0x1_0000_0000_0000_0000) by (nonlinear_arith)
            requires
                one() == 0x1_0000_0000,
        ;
    }
    lemma_normalized_is_unit(v);
}

/// How far below one the dot product of a unit vector with its own
/// normalisation may lie: `2^-17`.
pub open spec fn self_dot_slack() -> int {
    0x8000
}

/// The product of a component with its own normalised value, in magnitudes.
proof fn lemma_self_product(u: int, len: int)
    requires
        0 < len,
        -len <= u <= len,
        -one() <= u <= one(),
    ensures
        sat_mul(trunc_div(u * one(), len), u) == (((abs_int(u) * one()) / len) * abs_int(u)) / one(),
        0 <= (abs_int(u) * one()) / len <= one(),
{
    let a = abs_int(u);
    let q = (a * one()) / len;
    lemma_quotient_bound(a, len);
    lemma_trunc_div_magnitude(u * one(), len);
    assert(abs_int(u * one()) == a * one()) by (nonlinear_arith)
        requires
            a == abs_int(u),
            one() == 0x1_0000_0000,
    ;
    let w = trunc_div(u * one(), len);
    assert(w * u == q * a) by (nonlinear_arith)
        requires
            (u >= 0 && w == q && a == u) || (u < 0 && w == -q && a == -u),
    ;
    assert(0 <= q * a <= one() * one()) by (nonlinear_arith)
        requires
            0 <= q <= one(),
            0 <= a <= one(),
    ;
    assert(0 <= (q * a) / one() <= one()) by (nonlinear_arith)
        requires
            0 <= q * a <= one() * one(),
            one() == 0x1_0000_0000,
    ;
}

/// The dot product of a unit vector with its own normalisation is one up
/// to [`self_dot_slack`].
pub proof fn lemma_unit_self_dot(u: Vec2Model)
    requires
        is_unit(u),
    ensures
        one() - self_dot_slack() <= dot_spec(normalize_or_zero_spec(u), u),
{
    let o = one();
    let n2 = norm_squared(u);
    lemma_unit_normalizes(u);
    lemma_floor_sqrt_exists(n2);
    let len = length_raw(u);
    assert(o * o == 0x1_0000_0000_0000_0000) by (nonlinear_arith)
        requires
            o == 0x1_0000_0000,
    ;
    // The length is close to one.
    assert(len >= o - 0x4000) by {
        if len + 1 <= o - 0x4000 {
            assert((len + 1) * (len + 1) <= (o - 0x4000) * (o - 0x4000)) by (nonlinear_arith)
                requires
                    0 <= len + 1 <= o - 0x4000,
            ;
            assert((o - 0x4000) * (o - 0x4000) < o * o - 0x4000_0000_0000) by (nonlinear_arith)
                requires
                    o == 0x1_0000_0000,
            ;
        }
    }
    lemma_component_bound(u.x, u.y, len);
    lemma_component_bound(u.y, u.x, len);
    lemma_self_product(u.x, len);
    lemma_self_product(u.y, len);
    let ax = abs_int(u.x);
    let ay = abs_int(u.y);
    let qx = (ax * o) / len;
    let qy = (ay * o) / len;
    let px = (qx * ax) / o;
    let py = (qy * ay) / o;
    assert(ax * ax == u.x * u.x && ay * ay == u.y * u.y) by (nonlinear_arith)
        requires
            ax == u.x || ax == -u.x,
            ay == u.y || ay == -u.y,
    ;
    // Each quotient loses less than one unit.
    assert(qx * len > ax * o - len && qy * len > ay * o - len) by (nonlinear_arith)
        requires
            0 < len,
            0 <= ax,
            0 <= ay,
            qx == (ax * o) / len,
            qy == (ay * o) / len,
    ;
    assert((qx * ax + qy * ay) * len >= o * (len * len) - 2 * o * len) by (nonlinear_arith)
        requires
            qx * len > ax * o - len,
            qy * len > ay * o - len,
            0 <= ax <= o,
            0 <= ay <= o,
            0 < len,
            len * len <= ax * ax + ay * ay,
    {
        assert((qx * len) * ax >= (ax * o - len) * ax);
        assert((qy * len) * ay >= (ay * o - len) * ay);
        assert(len * ax <= len * o && len * ay <= len * o);
        assert(o * (ax * ax + ay * ay) >= o * (len * len));
    }
    assert(qx * ax + qy * ay >= o * len - 2 * o) by (nonlinear_arith)
        requires
            (qx * ax + qy * ay) * len >= o * (len * len) - 2 * o * len,
            0 < len,
    {
        assert(o * (len * len) - 2 * o * len == (o * len - 2 * o) * len);
    }
    assert(px * o > qx * ax - o && py * o > qy * ay - o) by (nonlinear_arith)
        requires
            px == (qx * ax) / o,
            py == (qy * ay) / o,
            o == 0x1_0000_0000,
    ;
    assert(px + py >= len - 3) by (nonlinear_arith)
        requires
            px * o > qx * ax - o,
            py * o > qy * ay - o,
            qx * ax + qy * ay >= o * len - 2 * o,
            o == 0x1_0000_0000,
    ;
}

} // verus!

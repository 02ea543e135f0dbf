//! Signed fixed-point scalars with 32 fractional bits.
//!
//! A [`Fixed`] stores the integer `raw`, which stands for the number
//! `raw / 2^32`. Every operation is total: results that would leave the range
//! of the representation saturate at its ends, and quotients round toward
//! zero. The contracts are stated over the raw integers.

use vstd::prelude::*;

verus! {

/// The raw integer that stands for the number one.
pub const ONE_RAW: i64 = 0x1_0000_0000;

/// The raw integer of one, as a mathematical integer.
pub open spec fn one() -> int {
    0x1_0000_0000
}

/// The smallest raw integer.
pub open spec fn raw_min() -> int {
    -0x8000_0000_0000_0000
}

/// The largest raw integer.
pub open spec fn raw_max() -> int {
    0x7fff_ffff_ffff_ffff
}

/// Whether `v` is a raw integer that a [`Fixed`] can hold.
pub open spec fn in_range(v: int) -> bool {
    raw_min() <= v <= raw_max()
}

/// `v` brought into the range of the representation.
pub open spec fn saturate(v: int) -> int {
    if v < raw_min() {
        raw_min()
    } else if v > raw_max() {
        raw_max()
    } else {
        v
    }
}

/// The quotient of `n` by `d`, rounded toward zero.
pub open spec fn trunc_div(n: int, d: int) -> int
    recommends
        d != 0,
{
    if d > 0 {
        if n >= 0 {
            n / d
        } else {
            -((-n) / d)
        }
    } else {
        if n >= 0 {
            -(n / (-d))
        } else {
            (-n) / (-d)
        }
    }
}

/// Saturating sum of two raw values.
pub open spec fn sat_add(a: int, b: int) -> int {
    saturate(a + b)
}

/// Saturating difference of two raw values.
pub open spec fn sat_sub(a: int, b: int) -> int {
    saturate(a - b)
}

/// Saturating negation of a raw value.
pub open spec fn sat_neg(a: int) -> int {
    saturate(-a)
}

/// Saturating fixed-point product: `a * b / 2^32`, rounded toward zero.
pub open spec fn sat_mul(a: int, b: int) -> int {
    saturate(trunc_div(a * b, one()))
}

/// Saturating fixed-point quotient: `a * 2^32 / b`, rounded toward zero.
/// A quotient by zero saturates in the direction of `a`'s sign, and `0 / 0`
/// is zero.
pub open spec fn sat_div(a: int, b: int) -> int {
    if b == 0 {
        if a > 0 {
            raw_max()
        } else if a < 0 {
            raw_min()
        } else {
            0
        }
    } else {
        saturate(trunc_div(a * one(), b))
    }
}

/// The larger of two raw values.
pub open spec fn max_int(a: int, b: int) -> int {
    if a >= b {
        a
    } else {
        b
    }
}

/// The smaller of two raw values.
pub open spec fn min_int(a: int, b: int) -> int {
    if a <= b {
        a
    } else {
        b
    }
}

/// `v` restricted to the interval from `lo` to `hi`.
pub open spec fn clamp_int(v: int, lo: int, hi: int) -> int
    recommends
        lo <= hi,
{
    if v < lo {
        lo
    } else if v > hi {
        hi
    } else {
        v
    }
}

/// A fixed-point number; `raw` stands for `raw / 2^32`.
#[derive(Clone, Copy, Debug, PartialEq, Eq, Structural)]
pub struct Fixed {
    pub raw: i64,
}

impl View for Fixed {
    type V = int;

    open spec fn view(&self) -> int {
        self.raw as int
    }
}

fn saturate_wide(v: i128) -> (r: i64)
    ensures
        r == saturate(v as int),
{
    if v < -0x8000_0000_0000_0000 {
        -0x8000_0000_0000_0000
    } else if v > 0x7fff_ffff_ffff_ffff {
        0x7fff_ffff_ffff_ffff
    } else {
        v as i64
    }
}

impl Fixed {
    /// The number with the given raw integer.
    pub fn from_raw(raw: i64) -> (r: Fixed)
        ensures
            r@ == raw,
    {
        Fixed { raw }
    }

    /// Zero.
    pub fn zero() -> (r: Fixed)
        ensures
            r@ == 0,
    {
        Fixed { raw: 0 }
    }

    /// One.
    pub fn one() -> (r: Fixed)
        ensures
            r@ == one(),
    {
        Fixed { raw: ONE_RAW }
    }

    /// The whole number `n`.
    pub fn from_int(n: i32) -> (r: Fixed)
        ensures
            r@ == n * one(),
    {
        let wide: i64 = n as i64;
        Fixed { raw: wide * ONE_RAW }
    }

    /// The fraction `num / den`, rounded toward zero.
    pub fn from_ratio(num: i64, den: i64) -> (r: Fixed)
        ensures
            r@ == sat_div(num as int, den as int),
    {
        Fixed { raw: num }.div(Fixed { raw: den })
    }

    /// Saturating sum.
    pub fn add(self, rhs: Fixed) -> (r: Fixed)
        ensures
            r@ == sat_add(self@, rhs@),
    {
        let wide: i128 = self.raw as i128 + rhs.raw as i128;
        Fixed { raw: saturate_wide(wide) }
    }

    /// Saturating difference.
    pub fn sub(self, rhs: Fixed) -> (r: Fixed)
        ensures
            r@ == sat_sub(self@, rhs@),
    {
        let wide: i128 = self.raw as i128 - rhs.raw as i128;
        Fixed { raw: saturate_wide(wide) }
    }

    /// Saturating negation.
    pub fn neg(self) -> (r: Fixed)
        ensures
            r@ == sat_neg(self@),
    {
        let wide: i128 = -(self.raw as i128);
        Fixed { raw: saturate_wide(wide) }
    }

    /// Saturating product, rounded toward zero.
    pub fn mul(self, rhs: Fixed) -> (r: Fixed)
        ensures
            r@ == sat_mul(self@, rhs@),
    {
        let a: i128 = self.raw as i128;
        let b: i128 = rhs.raw as i128;
        assert(-0x4000_0000_0000_0000_0000_0000_0000_0000 <= a * b
            <= 0x4000_0000_0000_0000_0000_0000_0000_0000) by (nonlinear_arith)
            requires
                -0x8000_0000_0000_0000 <= a <= 0x8000_0000_0000_0000,
                -0x8000_0000_0000_0000 <= b <= 0x8000_0000_0000_0000,
        ;
        let wide: i128 = (a * b) / 0x1_0000_0000;
        Fixed { raw: saturate_wide(wide) }
    }

    /// Saturating quotient, rounded toward zero. A quotient by zero
    /// saturates in the direction of the dividend's sign.
    pub fn div(self, rhs: Fixed) -> (r: Fixed)
        ensures
            r@ == sat_div(self@, rhs@),
    {
        if rhs.raw == 0 {
            if self.raw > 0 {
                Fixed { raw: 0x7fff_ffff_ffff_ffff }
            } else if self.raw < 0 {
                Fixed { raw: -0x8000_0000_0000_0000 }
            } else {
                Fixed { raw: 0 }
            }
        } else {
            let a: i128 = self.raw as i128;
            let b: i128 = rhs.raw as i128;
            let scaled: i128 = a * 0x1_0000_0000;
            let wide: i128 = if b > 0 {
                scaled / b
            } else {
                (-scaled) / (-b)
            };
            Fixed { raw: saturate_wide(wide) }
        }
    }

    /// The larger of two numbers.
    pub fn max(self, other: Fixed) -> (r: Fixed)
        ensures
            r@ == max_int(self@, other@),
    {
        if self.raw >= other.raw {
            self
        } else {
            other
        }
    }

    /// The smaller of two numbers.
    pub fn min(self, other: Fixed) -> (r: Fixed)
        ensures
            r@ == min_int(self@, other@),
    {
        if self.raw <= other.raw {
            self
        } else {
            other
        }
    }

    /// The number restricted to the interval from `lo` to `hi`.
    pub fn clamp(self, lo: Fixed, hi: Fixed) -> (r: Fixed)
        requires
            lo@ <= hi@,
        ensures
            r@ == clamp_int(self@, lo@, hi@),
    {
        if self.raw < lo.raw {
            lo
        } else if self.raw > hi.raw {
            hi
        } else {
            self
        }
    }

    /// Whether the number is zero.
    pub fn is_zero(self) -> (r: bool)
        ensures
            r == (self@ == 0),
    {
        self.raw == 0
    }
}

} // verus!

//! The integer part of a scalar.
//!
//! A finite scalar is `significand * 2^(scale - 150)`, negated under a set
//! sign bit.  Truncation drops what is behind the binary point, and
//! saturates where the result does not fit in 32 bits; of a NaN it is 0.

use vstd::prelude::*;
use vstd::arithmetic::div_mod::{
    lemma_basic_div,
    lemma_div_by_multiple,
    lemma_div_is_ordered,
    lemma_div_multiples_vanish_quotient,
};
use vstd::arithmetic::mul::{lemma_mul_inequality, lemma_mul_is_associative};
use vstd::arithmetic::power2::{
    lemma2_to64,
    lemma_pow2_adds,
    lemma_pow2_pos,
    lemma_pow2_strictly_increases,
    pow2,
};
use vstd::bits::{lemma_u32_shl_is_mul, lemma_u32_shr_is_div};
use crate::scalar::{Scalar, SIGN_BIT};

verus! {

/// The weight of the bit that a normal number's fraction leaves out: `2^23`.
pub const HIDDEN_BIT: u32 = 0x80_0000;

/// The scale at which the significand is the value itself.
pub const UNIT_SCALE: u32 = 150;

impl Scalar {
    /// The exponent field.
    pub open spec fn exponent(self) -> int {
        self.magnitude() / (HIDDEN_BIT as int)
    }

    /// The fraction field.
    pub open spec fn fraction(self) -> int {
        self.magnitude() % (HIDDEN_BIT as int)
    }

    /// The fraction, with the hidden bit of a normal number.
    pub open spec fn significand(self) -> int {
        if self.exponent() == 0 {
            self.fraction()
        } else {
            self.fraction() + HIDDEN_BIT
        }
    }

    /// The exponent field, but 1 for a subnormal number.
    pub open spec fn scale(self) -> nat {
        if self.exponent() == 0 {
            1
        } else {
            self.exponent() as nat
        }
    }

    /// The absolute value times `2^150`: an integer.
    pub open spec fn weight(self) -> int {
        self.significand() * pow2(self.scale())
    }

    /// The integer part of the absolute value.
    pub open spec fn whole(self) -> int {
        self.weight() / (pow2(UNIT_SCALE as nat) as int)
    }

    /// The integer part, brought into the range of `i32`; 0 for a NaN.
    pub open spec fn truncated(self) -> int {
        if self.is_nan() {
            0
        } else if self.sign_negative() {
            if self.whole() >= 0x8000_0000 {
                -0x8000_0000
            } else {
                -self.whole()
            }
        } else {
            if self.whole() >= 0x7fff_ffff {
                0x7fff_ffff
            } else {
                self.whole()
            }
        }
    }

    /// The integer part of the scalar, as a conversion to `i32` gives it:
    /// rounded toward zero, the nearest bound where it is out of range, and
    /// 0 for a NaN.
    pub fn truncate(self) -> (r: i32)
        ensures
            r == self.truncated(),
    {
        if self.nan() {
            return 0;
        }
        let negative = self.bits >= SIGN_BIT;
        let magnitude: u32 = if negative {
            self.bits - SIGN_BIT
        } else {
            self.bits
        };
        let exponent: u32 = magnitude / HIDDEN_BIT;
        let fraction: u32 = magnitude % HIDDEN_BIT;
        if exponent < 127 {
            proof {
                lemma_below_one(self);
            }
            return 0;
        }
        if exponent >= 158 {
            proof {
                lemma_out_of_range(self);
            }
            return if negative {
                i32::MIN
            } else {
                i32::MAX
            };
        }
        let significand: u32 = fraction + HIDDEN_BIT;
        let whole: u32 = if exponent >= UNIT_SCALE {
            proof {
                lemma_whole_by_shift(self);
                lemma_u32_shl_is_mul(significand, (exponent - UNIT_SCALE) as u32);
            }
            significand << (exponent - UNIT_SCALE)
        } else {
            proof {
                lemma_whole_by_shift(self);
                lemma_u32_shr_is_div(significand, (UNIT_SCALE - exponent) as u32);
            }
            significand >> (UNIT_SCALE - exponent)
        };
        if negative {
            -(whole as i32)
        } else {
            whole as i32
        }
    }
}

/// A scalar of exponent below 127 is below 1 in absolute value.
pub proof fn lemma_below_one(s: Scalar)
    requires
        s.exponent() < 127,
    ensures
        s.whole() == 0,
{
    let unit = pow2(UNIT_SCALE as nat) as int;
    let p = pow2(s.scale()) as int;
    let top = pow2(126) as int;
    lemma2_to64();
    lemma_pow2_pos(s.scale());
    lemma_pow2_adds(24, 126);
    if s.scale() < 126 {
        lemma_pow2_strictly_increases(s.scale(), 126);
    }
    assert(s.significand() * p < 0x100_0000 * top) by (nonlinear_arith)
        requires
            0 <= s.significand() < 0x100_0000,
            0 < p <= top,
    ;
    assert(0 <= s.significand() * p) by (nonlinear_arith)
        requires
            0 <= s.significand(),
            0 < p,
    ;
    lemma_basic_div(s.weight(), unit);
}

/// A scalar of exponent 158 or more is at least `2^31` in absolute value.
pub proof fn lemma_out_of_range(s: Scalar)
    requires
        s.exponent() >= 158,
    ensures
        s.whole() >= 0x8000_0000,
{
    let unit = pow2(UNIT_SCALE as nat) as int;
    let p = pow2(s.scale()) as int;
    let low = pow2(158) as int;
    lemma2_to64();
    lemma_pow2_pos(UNIT_SCALE as nat);
    lemma_pow2_adds(8, 150);
    if s.scale() > 158 {
        lemma_pow2_strictly_increases(158, s.scale());
    }
    assert(s.significand() * p >= 0x80_0000 * low) by (nonlinear_arith)
        requires
            s.significand() >= 0x80_0000,
            p >= low > 0,
    ;
    assert(0x80_0000 * low == 0x8000_0000 * unit) by (nonlinear_arith)
        requires
            low == 0x100 * unit,
    ;
    lemma_div_is_ordered(0x8000_0000 * unit, s.weight(), unit);
    lemma_div_by_multiple(0x8000_0000, unit);
}

/// Between exponent 127 and 157 the integer part is the significand,
/// shifted: left by `exponent - 150` from 150 on, right by `150 - exponent`
/// below.
pub proof fn lemma_whole_by_shift(s: Scalar)
    requires
        127 <= s.exponent() < 158,
    ensures
        s.exponent() >= 150 ==> s.whole() == s.significand() * pow2((s.exponent() - 150) as nat)
            && s.whole() < 0x8000_0000,
        s.exponent() < 150 ==> s.whole() == s.significand() / (pow2(
            (150 - s.exponent()) as nat,
        ) as int) && s.whole() < 0x100_0000,
{
    let unit = pow2(UNIT_SCALE as nat) as int;
    let e = s.exponent() as nat;
    let sig = s.significand();
    lemma2_to64();
    lemma_pow2_pos(UNIT_SCALE as nat);
    lemma_pow2_pos(e);
    if e >= 150 {
        let d = (e - 150) as nat;
        let pd = pow2(d) as int;
        lemma_pow2_adds(d, 150);
        lemma_pow2_pos(d);
        lemma_mul_is_associative(sig, pd, unit);
        assert(0 <= sig * pd) by (nonlinear_arith)
            requires
                0 <= sig,
                0 < pd,
        ;
        lemma_div_by_multiple(sig * pd, unit);
        if d < 7 {
            lemma_pow2_strictly_increases(d, 7);
        }
        assert(sig * pd < 0x8000_0000) by (nonlinear_arith)
            requires
                0 <= sig < 0x100_0000,
                0 < pd <= 0x80,
        ;
    } else {
        let d = (150 - e) as nat;
        let pd = pow2(d) as int;
        let pe = pow2(e) as int;
        lemma_pow2_adds(e, d);
        lemma_pow2_pos(d);
        lemma_div_multiples_vanish_quotient(pe, sig, pd);
        assert(sig * pe == pe * sig) by (nonlinear_arith);
        assert(sig / pd <= sig) by (nonlinear_arith)
            requires
                0 <= sig,
                0 < pd,
        ;
    }
}

/// The weight grows with the magnitude.
pub proof fn lemma_weight_monotone(a: Scalar, b: Scalar)
    requires
        a.magnitude() <= b.magnitude(),
    ensures
        0 <= a.weight() <= b.weight(),
{
    let pa = pow2(a.scale()) as int;
    let pb = pow2(b.scale()) as int;
    lemma_pow2_pos(a.scale());
    lemma_pow2_pos(b.scale());
    assert(0 <= a.significand() * pa) by (nonlinear_arith)
        requires
            0 <= a.significand(),
            0 < pa,
    ;
    if a.exponent() == b.exponent() {
        lemma_mul_inequality(a.significand(), b.significand(), pa);
    } else {
        assert(a.exponent() < b.exponent());
        let next = (a.scale() + 1) as nat;
        lemma2_to64();
        lemma_pow2_adds(a.scale(), 1);
        if a.exponent() == 0 {
            assert(a.significand() * pa <= 0x80_0000 * pa) by (nonlinear_arith)
                requires
                    a.significand() <= 0x80_0000,
                    0 < pa,
            ;
            if b.scale() > 1 {
                lemma_pow2_strictly_increases(1, b.scale());
            }
        } else {
            assert(a.significand() * pa <= 0x80_0000 * (pa * 2)) by (nonlinear_arith)
                requires
                    a.significand() <= 0x100_0000,
                    0 < pa,
            ;
            if b.scale() > next {
                lemma_pow2_strictly_increases(next, b.scale());
            }
        }
        assert(0x80_0000 * pb <= b.significand() * pb) by (nonlinear_arith)
            requires
                0x80_0000 <= b.significand(),
                0 < pb,
        ;
        let bound = if a.exponent() == 0 {
            pa
        } else {
            pa * 2
        };
        assert(0x80_0000 * bound <= 0x80_0000 * pb) by (nonlinear_arith)
            requires
                bound <= pb,
        ;
    }
}

/// Truncation keeps the order: of two scalars, the one that is not above
/// the other does not truncate to more.
pub proof fn lemma_truncated_monotone(a: Scalar, b: Scalar)
    requires
        a.at_most(b),
    ensures
        a.truncated() <= b.truncated(),
{
    let unit = pow2(UNIT_SCALE as nat) as int;
    lemma_pow2_pos(UNIT_SCALE as nat);
    lemma_basic_div(0, unit);
    lemma_weight_monotone(a, a);
    lemma_weight_monotone(b, b);
    lemma_div_is_ordered(0, a.weight(), unit);
    lemma_div_is_ordered(0, b.weight(), unit);
    if a.sign_negative() && b.sign_negative() {
        lemma_weight_monotone(b, a);
        lemma_div_is_ordered(b.weight(), a.weight(), unit);
    } else if !a.sign_negative() && !b.sign_negative() {
        lemma_weight_monotone(a, b);
        lemma_div_is_ordered(a.weight(), b.weight(), unit);
    } else if !a.sign_negative() {
        // `a` is 0.0 and `b` is -0.0
        lemma_weight_monotone(b, a);
        assert(a.weight() == 0) by (nonlinear_arith)
            requires
                a.weight() == a.significand() * pow2(a.scale()),
                a.significand() == 0,
        ;
    }
}

/// Truncation is odd: the opposite scalar truncates to the opposite
/// integer, unless that is out of range.
pub proof fn lemma_truncated_negated(s: Scalar)
    ensures
        s.negated().whole() == s.whole(),
        s.whole() < 0x7fff_ffff ==> s.negated().truncated() == -s.truncated(),
{
}

} // verus!

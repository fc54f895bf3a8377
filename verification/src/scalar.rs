//! Single-precision reals, held as their IEEE 754 binary32 bit patterns.
//!
//! The library does no arithmetic that rounds: it moves scalars around,
//! orders them, flips their sign and takes their integer part.  All other
//! arithmetic on them is the caller's.  Ordering is exact: `less` is the `<`
//! of IEEE 754, under which NaN is unordered and the two zeros are equal.

use vstd::prelude::*;

verus! {

/// The bit that holds the sign.
pub const SIGN_BIT: u32 = 0x8000_0000;

/// The magnitude of the infinities; every larger magnitude is a NaN.
pub const INFINITY_MAGNITUDE: u32 = 0x7f80_0000;

/// Bit pattern of `0.0`.
pub const ZERO_BITS: u32 = 0;

/// Bit pattern of `1.0`.
pub const ONE_BITS: u32 = 0x3f80_0000;

/// Bit pattern of the largest finite value.
pub const MAX_BITS: u32 = 0x7f7f_ffff;

/// A binary32 value, identified by its bits.  `==` on scalars compares bit
/// patterns; numeric comparison is `lt`, `le`, `gt`, `ge` and `same`.
#[derive(Clone, Copy, Debug, PartialEq, Eq, Structural)]
pub struct Scalar {
    pub bits: u32,
}

impl Scalar {
    /// The bits without the sign.
    pub open spec fn magnitude(self) -> int {
        if self.bits >= SIGN_BIT {
            self.bits - SIGN_BIT
        } else {
            self.bits as int
        }
    }

    /// The sign bit is set (true of `-0.0` too).
    pub open spec fn sign_negative(self) -> bool {
        self.bits >= SIGN_BIT
    }

    pub open spec fn is_nan(self) -> bool {
        self.magnitude() > INFINITY_MAGNITUDE
    }

    pub open spec fn is_finite(self) -> bool {
        self.magnitude() < INFINITY_MAGNITUDE
    }

    /// An integer that orders the scalars that are not NaN as their values
    /// are ordered: the magnitude, negated under a set sign bit.  Both zeros
    /// have key 0.
    pub open spec fn key(self) -> int {
        if self.sign_negative() {
            -self.magnitude()
        } else {
            self.magnitude()
        }
    }

    /// `self < other` as IEEE 754 has it.
    pub open spec fn less(self, other: Scalar) -> bool {
        !self.is_nan() && !other.is_nan() && self.key() < other.key()
    }

    /// `self <= other` as IEEE 754 has it.
    pub open spec fn at_most(self, other: Scalar) -> bool {
        !self.is_nan() && !other.is_nan() && self.key() <= other.key()
    }

    /// `self == other` as IEEE 754 has it.
    pub open spec fn equals(self, other: Scalar) -> bool {
        !self.is_nan() && !other.is_nan() && self.key() == other.key()
    }

    /// The scalar with the opposite sign: the same bits but for the sign
    /// bit.
    pub open spec fn negated(self) -> Scalar {
        if self.bits >= SIGN_BIT {
            Scalar { bits: (self.bits - SIGN_BIT) as u32 }
        } else {
            Scalar { bits: (self.bits + SIGN_BIT) as u32 }
        }
    }

    pub fn from_bits(bits: u32) -> (s: Scalar)
        ensures
            s.bits == bits,
    {
        Scalar { bits }
    }

    pub fn to_bits(self) -> (bits: u32)
        ensures
            bits == self.bits,
    {
        self.bits
    }

    /// `0.0`.
    pub open spec fn spec_zero() -> Scalar {
        Scalar { bits: ZERO_BITS }
    }

    /// `1.0`.
    pub open spec fn spec_one() -> Scalar {
        Scalar { bits: ONE_BITS }
    }

    /// The largest finite scalar.
    pub open spec fn spec_max_finite() -> Scalar {
        Scalar { bits: MAX_BITS }
    }

    #[verifier::when_used_as_spec(spec_zero)]
    pub fn zero() -> (s: Scalar)
        ensures
            s == Self::spec_zero(),
    {
        Scalar { bits: ZERO_BITS }
    }

    #[verifier::when_used_as_spec(spec_one)]
    pub fn one() -> (s: Scalar)
        ensures
            s == Self::spec_one(),
    {
        Scalar { bits: ONE_BITS }
    }

    #[verifier::when_used_as_spec(spec_max_finite)]
    pub fn max_finite() -> (s: Scalar)
        ensures
            s == Self::spec_max_finite(),
    {
        Scalar { bits: MAX_BITS }
    }

    pub fn nan(self) -> (r: bool)
        ensures
            r == self.is_nan(),
    {
        self.abs_bits() > INFINITY_MAGNITUDE
    }

    pub fn finite(self) -> (r: bool)
        ensures
            r == self.is_finite(),
    {
        self.abs_bits() < INFINITY_MAGNITUDE
    }

    fn abs_bits(self) -> (m: u32)
        ensures
            m == self.magnitude(),
    {
        if self.bits >= SIGN_BIT {
            self.bits - SIGN_BIT
        } else {
            self.bits
        }
    }

    fn ordinal(self) -> (k: i64)
        ensures
            k == self.key(),
    {
        let m: i64 = self.abs_bits() as i64;
        if self.bits >= SIGN_BIT {
            -m
        } else {
            m
        }
    }

    pub fn lt(self, other: Scalar) -> (r: bool)
        ensures
            r == self.less(other),
    {
        !self.nan() && !other.nan() && self.ordinal() < other.ordinal()
    }

    pub fn le(self, other: Scalar) -> (r: bool)
        ensures
            r == self.at_most(other),
    {
        !self.nan() && !other.nan() && self.ordinal() <= other.ordinal()
    }

    pub fn gt(self, other: Scalar) -> (r: bool)
        ensures
            r == other.less(self),
    {
        other.lt(self)
    }

    pub fn ge(self, other: Scalar) -> (r: bool)
        ensures
            r == other.at_most(self),
    {
        other.le(self)
    }

    /// The scalar with the opposite sign.
    pub fn neg(self) -> (r: Scalar)
        ensures
            r == self.negated(),
            r.key() == -self.key(),
            r.is_nan() == self.is_nan(),
    {
        if self.bits >= SIGN_BIT {
            Scalar { bits: self.bits - SIGN_BIT }
        } else {
            Scalar { bits: self.bits + SIGN_BIT }
        }
    }

    /// Numeric equality: false of a NaN, true of `0.0` and `-0.0`.
    pub fn same(self, other: Scalar) -> (r: bool)
        ensures
            r == self.equals(other),
    {
        !self.nan() && !other.nan() && self.ordinal() == other.ordinal()
    }
}

/// Scalars that are not NaN and have the same key are the same bits, but for
/// the two zeros.
pub proof fn lemma_key_identifies(a: Scalar, b: Scalar)
    requires
        a.key() == b.key(),
        a.key() != 0,
    ensures
        a == b,
{
}

/// `less` is a strict order: nothing is below itself, and it is transitive.
pub proof fn lemma_less_is_strict(a: Scalar, b: Scalar, c: Scalar)
    ensures
        !a.less(a),
        a.less(b) ==> !b.less(a),
        a.less(b) && b.less(c) ==> a.less(c),
{
}

/// Of two scalars that are not NaN, exactly one of `a < b`, `a == b`,
/// `b < a` holds; of a NaN, none.
pub proof fn lemma_trichotomy(a: Scalar, b: Scalar)
    ensures
        !a.is_nan() && !b.is_nan() ==> (a.less(b) || a.equals(b) || b.less(a)),
        !(a.less(b) && a.equals(b)),
        !(b.less(a) && a.equals(b)),
        a.is_nan() || b.is_nan() ==> !a.less(b) && !b.less(a) && !a.equals(b) && !a.at_most(b),
        a.at_most(b) <==> a.less(b) || a.equals(b),
{
}

} // verus!

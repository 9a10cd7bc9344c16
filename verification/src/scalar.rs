//! Numbers as the GPU sees them: IEEE 754 binary32 bit patterns, with the
//! comparisons the effects need. Arithmetic on them happens outside this crate.
use vstd::prelude::*;

verus! {

/// Bit pattern of positive infinity. Larger magnitudes are NaNs.
pub const INFINITY_BITS: u32 = 0x7f80_0000;

/// Bit pattern of `-0.0`: the sign bit alone.
pub const SIGN_BIT: u32 = 0x8000_0000;

/// A binary32 number, held as its bit pattern. `==` compares patterns, so it
/// tells `0.0` from `-0.0` and holds between equal NaNs; use [`Scalar::num_eq`]
/// for numeric equality.
#[derive(Clone, Copy, PartialEq, Eq, Structural, Debug)]
pub struct Scalar {
    pub bits: u32,
}

impl Scalar {
    /// `0.0`.
    #[verifier::allow_in_spec]
    pub fn zero() -> Scalar
        returns
            (Scalar { bits: 0 }),
    {
        Scalar { bits: 0 }
    }

    /// `1.0`.
    #[verifier::allow_in_spec]
    pub fn one() -> Scalar
        returns
            (Scalar { bits: 0x3f80_0000 }),
    {
        Scalar { bits: 0x3f80_0000 }
    }

    /// `-1.0`.
    #[verifier::allow_in_spec]
    pub fn neg_one() -> Scalar
        returns
            (Scalar { bits: 0xbf80_0000 }),
    {
        Scalar { bits: 0xbf80_0000 }
    }

    /// Positive infinity.
    #[verifier::allow_in_spec]
    pub fn infinity() -> Scalar
        returns
            (Scalar { bits: INFINITY_BITS }),
    {
        Scalar { bits: INFINITY_BITS }
    }

    /// The pattern without its sign bit.
    pub open spec fn mag(self) -> int {
        if self.bits < SIGN_BIT {
            self.bits as int
        } else {
            self.bits - SIGN_BIT
        }
    }

    /// Position on the number line: patterns of numbers compare like the
    /// numbers do, and both zeros sit at 0. Means nothing for a NaN.
    pub open spec fn rank(self) -> int {
        if self.bits < SIGN_BIT {
            self.mag()
        } else {
            -self.mag()
        }
    }

    pub open spec fn nan(self) -> bool {
        self.mag() > INFINITY_BITS
    }

    /// Numeric `self < other`; false as soon as one side is a NaN.
    pub open spec fn below(self, other: Scalar) -> bool {
        !self.nan() && !other.nan() && self.rank() < other.rank()
    }

    /// Numeric `self <= other`; false as soon as one side is a NaN.
    pub open spec fn at_most(self, other: Scalar) -> bool {
        !self.nan() && !other.nan() && self.rank() <= other.rank()
    }

    /// Numeric `self == other`; false as soon as one side is a NaN.
    pub open spec fn same(self, other: Scalar) -> bool {
        !self.nan() && !other.nan() && self.rank() == other.rank()
    }

    /// Neither infinite nor a NaN.
    pub open spec fn finite(self) -> bool {
        self.mag() < INFINITY_BITS
    }

    pub fn from_bits(bits: u32) -> (s: Scalar)
        ensures
            s.bits == bits,
    {
        Scalar { bits }
    }

    pub fn is_finite(self) -> (r: bool)
        ensures
            r == self.finite(),
    {
        self.abs().bits < INFINITY_BITS
    }

    pub fn is_nan(self) -> (r: bool)
        ensures
            r == self.nan(),
    {
        self.abs().bits > INFINITY_BITS
    }

    /// The number without its sign.
    pub fn abs(self) -> (r: Scalar)
        ensures
            r.bits == self.mag(),
            r.mag() == self.mag(),
            r.rank() == self.mag(),
    {
        if self.bits < SIGN_BIT {
            self
        } else {
            Scalar { bits: self.bits - SIGN_BIT }
        }
    }

    /// Position on the number line (see the `rank` spec function).
    fn signed(self) -> (r: i64)
        ensures
            r == self.rank(),
    {
        if self.bits < SIGN_BIT {
            self.bits as i64
        } else {
            -((self.bits - SIGN_BIT) as i64)
        }
    }

    pub fn lt(self, other: Scalar) -> (r: bool)
        ensures
            r == self.below(other),
    {
        !self.is_nan() && !other.is_nan() && self.signed() < other.signed()
    }

    pub fn le(self, other: Scalar) -> (r: bool)
        ensures
            r == self.at_most(other),
    {
        !self.is_nan() && !other.is_nan() && self.signed() <= other.signed()
    }

    pub fn num_eq(self, other: Scalar) -> (r: bool)
        ensures
            r == self.same(other),
    {
        !self.is_nan() && !other.is_nan() && self.signed() == other.signed()
    }

    /// What [`Scalar::max`] returns.
    pub open spec fn larger(self, other: Scalar) -> Scalar {
        if self.nan() || self.below(other) {
            other
        } else {
            self
        }
    }

    /// The larger number. A NaN loses against a number; between numerically
    /// equal values `self` is kept.
    pub fn max(self, other: Scalar) -> (r: Scalar)
        ensures
            r == self.larger(other),
    {
        if self.is_nan() || self.lt(other) {
            other
        } else {
            self
        }
    }

    /// What [`Scalar::clamp_unit`] returns.
    pub open spec fn unit(self) -> Scalar {
        if self.below(Scalar::zero()) {
            Scalar::zero()
        } else if Scalar::one().below(self) {
            Scalar::one()
        } else {
            self
        }
    }

    /// Clamps to `0.0..=1.0`; a NaN stays as it is.
    pub fn clamp_unit(self) -> (r: Scalar)
        ensures
            r == self.unit(),
    {
        if self.lt(Scalar::zero()) {
            Scalar::zero()
        } else if Scalar::one().lt(self) {
            Scalar::one()
        } else {
            self
        }
    }
}

#[derive(Clone, Copy, PartialEq, Eq, Structural, Debug)]
pub struct Vec2 {
    pub x: Scalar,
    pub y: Scalar,
}

#[derive(Clone, Copy, PartialEq, Eq, Structural, Debug)]
pub struct Vec3 {
    pub x: Scalar,
    pub y: Scalar,
    pub z: Scalar,
}

/// An axis-aligned rectangle between two corners.
#[derive(Clone, Copy, PartialEq, Eq, Structural, Debug)]
pub struct Rect {
    pub min: Vec2,
    pub max: Vec2,
}

/// A linear color.
#[derive(Clone, Copy, PartialEq, Eq, Structural, Debug)]
pub struct LinearRgba {
    pub red: Scalar,
    pub green: Scalar,
    pub blue: Scalar,
    pub alpha: Scalar,
}

/// Patterns stand for numbers: the sign is the top bit, the patterns past
/// infinity are not numbers, and everything before infinity is finite.
pub proof fn law_patterns_stand_for_numbers(a: Scalar)
    ensures
        a.mag() == a.bits % 0x8000_0000,
        a.rank() == if a.bits < 0x8000_0000 {
            a.bits as int
        } else {
            0x8000_0000 - a.bits
        },
        a.nan() <==> a.bits % 0x8000_0000 > 0x7f80_0000,
        a.finite() <==> a.bits % 0x8000_0000 < 0x7f80_0000,
        Scalar::zero().bits == 0,
        Scalar::one().bits == 0x3f80_0000,
        Scalar::neg_one().bits == 0xbf80_0000,
        Scalar::infinity().bits == 0x7f80_0000,
{
}

/// Numbers compare by value: positive ones like their patterns, negative ones
/// the other way round, every negative one below every positive one, and the
/// two zeros alike. What is not a number compares with nothing.
pub proof fn law_numbers_compare_by_value(a: Scalar, b: Scalar)
    ensures
        a.nan() || b.nan() ==> !a.below(b) && !a.at_most(b) && !a.same(b),
        !a.nan() && !b.nan() ==> {
            &&& a.bits < 0x8000_0000 && b.bits < 0x8000_0000 ==> (a.below(b) <==> a.bits < b.bits)
            &&& a.bits >= 0x8000_0000 && b.bits >= 0x8000_0000 ==> (a.below(b) <==> b.bits < a.bits)
            &&& a.bits >= 0x8000_0000 && b.bits < 0x8000_0000 ==> (a.below(b) <==> !(a.bits
                == 0x8000_0000 && b.bits == 0))
            &&& a.bits < 0x8000_0000 && b.bits >= 0x8000_0000 ==> !a.below(b)
            &&& a.same(b) <==> a.bits == b.bits || (a.bits % 0x8000_0000 == 0 && b.bits
                % 0x8000_0000 == 0)
            &&& a.at_most(b) <==> a.below(b) || a.same(b)
        },
{
}

/// Of two numbers one is below the other or they are the same, never both; and
/// what is at most something that is at most a third is at most the third.
pub proof fn law_numbers_are_ordered(a: Scalar, b: Scalar, c: Scalar)
    requires
        !a.nan(),
        !b.nan(),
        !c.nan(),
    ensures
        a.below(b) || a.same(b) || b.below(a),
        !(a.below(b) && a.same(b)),
        !(a.below(b) && b.below(a)),
        a.at_most(b) <==> !b.below(a),
        a.at_most(b) && b.at_most(c) ==> a.at_most(c),
{
}

/// The larger of two is one of them, is below neither, is a number if one of
/// them is, and is the first one between equals.
pub proof fn law_larger_is_an_upper_bound(a: Scalar, b: Scalar)
    ensures
        a.larger(b) == a || a.larger(b) == b,
        !a.larger(b).below(a),
        !a.larger(b).below(b),
        a.larger(b).nan() ==> a.nan() && b.nan(),
        a.same(b) ==> a.larger(b) == a,
        a.nan() ==> a.larger(b) == b,
{
}

/// Clamping moves a number no further than to the nearer end of `0.0..=1.0`,
/// and leaves one that is inside, or is none, as it is.
pub proof fn law_unit_is_the_nearest(a: Scalar)
    ensures
        a.nan() ==> a.unit() == a,
        !a.nan() ==> (Scalar { bits: 0 }).at_most(a.unit()) && a.unit().at_most(
            Scalar { bits: 0x3f80_0000 },
        ),
        (Scalar { bits: 0 }).at_most(a) && a.at_most(Scalar { bits: 0x3f80_0000 }) ==> a.unit()
            == a,
        a.below(Scalar { bits: 0 }) ==> a.unit().bits == 0,
        (Scalar { bits: 0x3f80_0000 }).below(a) ==> a.unit().bits == 0x3f80_0000,
{
}

} // verus!

//! IEEE-754 binary64 numbers, carried by their bit patterns.
//!
//! A [`Float`] holds the 64 bits of a double: one sign bit, eleven exponent
//! bits and fifty-two fraction bits.  Every finite double is a whole number
//! of units of 2^-1074, and [`Float::value`] is that whole number; the
//! comparisons are defined over it and computed from the bits.
//! Classification, comparison and negation are exact and are proved here.
//! Rounded arithmetic is not offered: callers compute sums and products with
//! the machine's own doubles and hand the resulting bit patterns in.

use vstd::arithmetic::power2::lemma2_to64_rest;
use vstd::arithmetic::power2::lemma_pow2_adds;
use vstd::arithmetic::power2::lemma_pow2_pos;
use vstd::arithmetic::power2::lemma_pow2_strictly_increases;
use vstd::arithmetic::power2::lemma_pow2_unfold;
use vstd::arithmetic::power2::pow2;
use vstd::prelude::*;

verus! {

/// The sign bit of a binary64 bit pattern.
pub const SIGN_BIT: u64 = 0x8000_0000_0000_0000;

/// The bit pattern of positive infinity: every exponent bit set, no fraction bit.
pub const INFINITY_BITS: u64 = 0x7ff0_0000_0000_0000;

/// Two to the power 52: the number of fractions that one exponent spans.
pub const FRACTION_SPAN: u64 = 0x0010_0000_0000_0000;

/// The bit pattern of `+0.0`.
pub const ZERO_BITS: u64 = 0;

/// The bit pattern of `1.0`.
pub const ONE_BITS: u64 = 0x3ff0_0000_0000_0000;

/// A binary64 number, identified with its bit pattern.
///
/// `==` on `Float` is identity of bit patterns.  It is finer than numeric
/// equality, which [`Float::equals`] decides: `+0.0` and `-0.0` are equal as
/// numbers but differ as patterns, and a NaN is identical to itself though it
/// equals nothing.
#[derive(Clone, Copy, Debug, PartialEq, Eq, Structural)]
pub struct Float {
    pub bits: u64,
}

impl Float {
    /// The pattern without its sign bit.  It grows with the absolute value.
    pub open spec fn magnitude(self) -> int {
        if self.bits >= SIGN_BIT {
            self.bits - SIGN_BIT
        } else {
            self.bits as int
        }
    }

    /// Whether the sign bit is set.  True of `-0.0` and of NaNs with a sign.
    pub open spec fn spec_is_sign_negative(self) -> bool {
        self.bits >= SIGN_BIT
    }

    /// Whether the pattern is a NaN: exponent all ones and a fraction bit set.
    pub open spec fn spec_is_nan(self) -> bool {
        self.magnitude() > INFINITY_BITS
    }

    /// The absolute value, in units of 2^-1074, of the number whose pattern
    /// without the sign is `magnitude`.  With the exponent field `e` and the
    /// fraction field `m`, a subnormal number (`e = 0`) is `m` units, and a
    /// normal one is `(2^52 + m) · 2^(e - 1)` units.  The patterns of the
    /// infinities get the value that the next exponent would have, which is
    /// beyond every finite number.
    pub open spec fn units_of(magnitude: int) -> int {
        let e = magnitude / (FRACTION_SPAN as int);
        let m = magnitude % (FRACTION_SPAN as int);
        if e == 0 {
            m
        } else {
            (FRACTION_SPAN + m) * pow2((e - 1) as nat)
        }
    }

    /// The number itself, in units of 2^-1074.  It means nothing for a NaN.
    pub open spec fn value(self) -> int {
        if self.spec_is_sign_negative() {
            -Float::units_of(self.magnitude())
        } else {
            Float::units_of(self.magnitude())
        }
    }

    /// The distance, in units of 2^-1074, from the number to the next one of
    /// greater magnitude.
    pub open spec fn spacing(self) -> int {
        let e = self.magnitude() / (FRACTION_SPAN as int);
        if e == 0 {
            1
        } else {
            pow2((e - 1) as nat) as int
        }
    }

    /// Whether the number is the fraction `num / den` rounded to a double:
    /// it is finite and lies within half its spacing of the fraction.
    pub open spec fn rounds(self, num: int, den: int) -> bool {
        &&& self.magnitude() < INFINITY_BITS
        &&& den > 0
        &&& 2 * (self.value() * den - num * pow2(1074)) <= den * self.spacing()
        &&& 2 * (num * pow2(1074) - self.value() * den) <= den * self.spacing()
    }

    /// Whether the number is exactly the fraction `num / den`.
    pub open spec fn is_fraction(self, num: int, den: int) -> bool {
        &&& self.magnitude() < INFINITY_BITS
        &&& den > 0
        &&& self.value() * den == num * pow2(1074)
    }

    /// The place of a number on the line, read off the bits: the magnitude,
    /// signed.  Places are ordered as the values are, and both zeros have
    /// place 0; see [`Float::lemma_place_orders_values`].
    pub open spec fn place(self) -> int {
        if self.spec_is_sign_negative() {
            -self.magnitude()
        } else {
            self.magnitude()
        }
    }

    /// Numeric `<`: false whenever a NaN is involved.
    pub open spec fn spec_lt(self, other: Float) -> bool {
        !self.spec_is_nan() && !other.spec_is_nan() && self.value() < other.value()
    }

    /// Numeric `<=`: false whenever a NaN is involved.
    pub open spec fn spec_le(self, other: Float) -> bool {
        !self.spec_is_nan() && !other.spec_is_nan() && self.value() <= other.value()
    }

    /// Numeric `==`: false whenever a NaN is involved, true of the two zeros.
    pub open spec fn spec_equals(self, other: Float) -> bool {
        !self.spec_is_nan() && !other.spec_is_nan() && self.value() == other.value()
    }

    /// The number with the sign bit flipped.
    pub open spec fn negated(self) -> Float {
        if self.bits >= SIGN_BIT {
            Float { bits: (self.bits - SIGN_BIT) as u64 }
        } else {
            Float { bits: (self.bits + SIGN_BIT) as u64 }
        }
    }

    /// The rank by which numbers are sorted: NaNs first, all of one rank, then
    /// the numbers in ascending order.
    pub open spec fn rank(self) -> int {
        if self.spec_is_nan() {
            -(SIGN_BIT as int)
        } else {
            self.place()
        }
    }

    /// `+0.0` as a specification value.
    pub open spec fn spec_zero() -> Float {
        Float { bits: ZERO_BITS }
    }

    /// `1.0` as a specification value.
    pub open spec fn spec_one() -> Float {
        Float { bits: ONE_BITS }
    }

    /// A greater magnitude is a greater absolute value.
    pub proof fn lemma_units_increase(x: int, y: int)
        requires
            0 <= x < y,
        ensures
            0 <= Float::units_of(x) < Float::units_of(y),
    {
        let span = FRACTION_SPAN as int;
        let ex = x / span;
        let mx = x % span;
        let ey = y / span;
        let my = y % span;
        if ex == 0 {
            if ey != 0 {
                let py = pow2((ey - 1) as nat) as int;
                lemma_pow2_pos((ey - 1) as nat);
                assert(span <= (span + my) * py) by (nonlinear_arith)
                    requires
                        0 <= my,
                        1 <= py,
                        0 < span,
                ;
            }
        } else {
            let px = pow2((ex - 1) as nat) as int;
            lemma_pow2_pos((ex - 1) as nat);
            assert(0 <= (span + mx) * px) by (nonlinear_arith)
                requires
                    0 <= mx,
                    0 < px,
                    0 < span,
            ;
            if ex == ey {
                assert((span + mx) * px < (span + my) * px) by (nonlinear_arith)
                    requires
                        mx < my,
                        0 < px,
                ;
            } else {
                let py = pow2((ey - 1) as nat) as int;
                lemma_pow2_pos((ey - 1) as nat);
                lemma_pow2_unfold(ex as nat);
                if ex < ey - 1 {
                    lemma_pow2_strictly_increases(ex as nat, (ey - 1) as nat);
                }
                assert(2 * px <= py);
                assert((span + mx) * px < span * py) by (nonlinear_arith)
                    requires
                        0 <= mx < span,
                        0 < px,
                        2 * px <= py,
                ;
                assert(span * py <= (span + my) * py) by (nonlinear_arith)
                    requires
                        0 <= my,
                        0 < py,
                ;
            }
        }
    }

    /// The places, which are read off the bits, are ordered as the values
    /// are: a number is less than another exactly when its place is lower,
    /// and two numbers are equal exactly when their places are.
    pub proof fn lemma_place_orders_values(a: Float, b: Float)
        ensures
            a.place() < b.place() <==> a.value() < b.value(),
            a.place() == b.place() <==> a.value() == b.value(),
            a.magnitude() == 0 <==> a.value() == 0,
    {
        let x = a.magnitude();
        let y = b.magnitude();
        assert(Float::units_of(0) == 0);
        if x < y {
            Float::lemma_units_increase(x, y);
        }
        if y < x {
            Float::lemma_units_increase(y, x);
        }
        if 0 < x {
            Float::lemma_units_increase(0, x);
        }
        if 0 < y {
            Float::lemma_units_increase(0, y);
        }
    }

    /// How a number compares with zero, read off the bits: it is zero where
    /// the magnitude is, negative where the sign is set on another
    /// magnitude, and never anything where it is a NaN.
    pub proof fn lemma_compare_with_zero(x: Float)
        ensures
            x.spec_equals(Float::spec_zero()) <==> x.magnitude() == 0,
            x.spec_lt(Float::spec_zero()) <==> !x.spec_is_nan() && x.spec_is_sign_negative()
                && x.magnitude() != 0,
            x.spec_le(Float::spec_zero()) <==> !x.spec_is_nan() && (x.spec_is_sign_negative()
                || x.magnitude() == 0),
            Float::spec_zero().spec_le(x) <==> !x.spec_is_nan() && (!x.spec_is_sign_negative()
                || x.magnitude() == 0),
    {
        Float::lemma_place_orders_values(x, Float::spec_zero());
        Float::lemma_place_orders_values(Float::spec_zero(), x);
    }

    /// A normal number is told to be a fraction, or a fraction rounded, by
    /// its fields alone.  With the exponent field `1075 - shift` and the
    /// significand `s`, which is 2^52 and the fraction field, the number is
    /// `s / 2^shift`, with the sign of the pattern.
    pub proof fn lemma_fraction_of_fields(x: Float, num: int, den: int, shift: nat)
        requires
            den > 0,
            shift <= 1074,
            x.magnitude() / (FRACTION_SPAN as int) == 1075 - shift,
        ensures
            ({
                let s = FRACTION_SPAN + x.magnitude() % (FRACTION_SPAN as int);
                let signed = if x.spec_is_sign_negative() {
                    -s
                } else {
                    s
                };
                &&& den * signed == num * pow2(shift) ==> x.is_fraction(num, den)
                &&& 2 * (den * signed - num * pow2(shift)) <= den && 2 * (num * pow2(shift) - den
                    * signed) <= den ==> x.rounds(num, den)
            }),
    {
        let s: int = FRACTION_SPAN + x.magnitude() % (FRACTION_SPAN as int);
        let signed: int = if x.spec_is_sign_negative() {
            -s
        } else {
            s
        };
        let p: int = pow2((1074 - shift) as nat) as int;
        let c: int = pow2(shift) as int;
        let whole: int = pow2(1074) as int;
        let v: int = x.value();
        lemma_pow2_adds(shift, (1074 - shift) as nat);
        lemma_pow2_pos((1074 - shift) as nat);
        assert(whole == c * p);
        assert(x.spacing() == p);
        assert(Float::units_of(x.magnitude()) == s * p);
        assert(v == signed * p) by (nonlinear_arith)
            requires
                v == s * p && signed == s || v == -(s * p) && signed == -s,
        ;
        if den * signed == num * c {
            assert(v * den == num * whole) by (nonlinear_arith)
                requires
                    v == signed * p,
                    whole == c * p,
                    den * signed == num * c,
            ;
        }
        if 2 * (den * signed - num * c) <= den && 2 * (num * c - den * signed) <= den {
            assert(2 * (v * den - num * whole) <= den * p) by (nonlinear_arith)
                requires
                    v == signed * p,
                    whole == c * p,
                    2 * (den * signed - num * c) <= den,
                    0 < p,
            ;
            assert(2 * (num * whole - v * den) <= den * p) by (nonlinear_arith)
                requires
                    v == signed * p,
                    whole == c * p,
                    2 * (num * c - den * signed) <= den,
                    0 < p,
            ;
        }
    }

    /// A NaN ranks strictly below every number that is not one.
    pub proof fn lemma_nan_ranks_first(a: Float, b: Float)
        requires
            a.spec_is_nan(),
            !b.spec_is_nan(),
        ensures
            a.rank() < b.rank(),
    {
    }

    /// The patterns of `+0.0` and `1.0` are the numbers zero and one.
    pub proof fn lemma_zero_and_one()
        ensures
            Float::spec_zero().is_fraction(0, 1),
            Float::spec_one().is_fraction(1, 1),
    {
        lemma2_to64_rest();
        Float::lemma_fraction_of_fields(Float::spec_one(), 1, 1, 52);
    }

    /// The number with the given bit pattern.
    pub fn from_bits(bits: u64) -> (r: Float)
        ensures
            r == (Float { bits }),
    {
        Float { bits }
    }

    /// The bit pattern of the number.
    pub fn to_bits(self) -> (bits: u64)
        ensures
            bits == self.bits,
    {
        self.bits
    }

    /// `+0.0`.
    pub fn zero() -> (r: Float)
        ensures
            r == Float::spec_zero(),
            r.is_fraction(0, 1),
    {
        proof {
            Float::lemma_zero_and_one();
        }
        Float { bits: ZERO_BITS }
    }

    /// `1.0`.
    pub fn one() -> (r: Float)
        ensures
            r == Float::spec_one(),
            r.is_fraction(1, 1),
    {
        proof {
            Float::lemma_zero_and_one();
        }
        Float { bits: ONE_BITS }
    }

    /// Whether the number is a NaN.
    pub fn is_nan(self) -> (r: bool)
        ensures
            r == self.spec_is_nan(),
    {
        if self.bits >= SIGN_BIT {
            self.bits - SIGN_BIT > INFINITY_BITS
        } else {
            self.bits > INFINITY_BITS
        }
    }

    /// Whether the sign bit is set.
    pub fn is_sign_negative(self) -> (r: bool)
        ensures
            r == self.spec_is_sign_negative(),
    {
        self.bits >= SIGN_BIT
    }

    /// The number without its sign, as an integer that grows with it.
    fn magnitude_bits(self) -> (m: u64)
        ensures
            m == self.magnitude(),
            m < SIGN_BIT,
    {
        if self.bits >= SIGN_BIT {
            self.bits - SIGN_BIT
        } else {
            self.bits
        }
    }

    /// Negation: the same magnitude with the other sign.  It is exact for
    /// every pattern, NaNs and zeros included.
    pub fn neg(self) -> (r: Float)
        ensures
            r == self.negated(),
            r.magnitude() == self.magnitude(),
            r.spec_is_sign_negative() != self.spec_is_sign_negative(),
            r.spec_is_nan() == self.spec_is_nan(),
            r.value() == -self.value(),
            r.place() == -self.place(),
            r.negated() == self,
    {
        if self.bits >= SIGN_BIT {
            Float { bits: self.bits - SIGN_BIT }
        } else {
            Float { bits: self.bits + SIGN_BIT }
        }
    }

    /// Numeric `self < other`.
    pub fn lt(self, other: Float) -> (r: bool)
        ensures
            r == self.spec_lt(other),
    {
        proof {
            Float::lemma_place_orders_values(self, other);
        }
        if self.is_nan() || other.is_nan() {
            return false;
        }
        let a: u64 = self.magnitude_bits();
        let b: u64 = other.magnitude_bits();
        if self.is_sign_negative() {
            if other.is_sign_negative() {
                b < a
            } else {
                a > 0 || b > 0
            }
        } else {
            if other.is_sign_negative() {
                false
            } else {
                a < b
            }
        }
    }

    /// Numeric `self == other`.
    pub fn equals(self, other: Float) -> (r: bool)
        ensures
            r == self.spec_equals(other),
    {
        proof {
            Float::lemma_place_orders_values(self, other);
        }
        if self.is_nan() || other.is_nan() {
            return false;
        }
        let a: u64 = self.magnitude_bits();
        let b: u64 = other.magnitude_bits();
        if self.is_sign_negative() == other.is_sign_negative() {
            a == b
        } else {
            a == 0 && b == 0
        }
    }

    /// Numeric `self <= other`.
    pub fn le(self, other: Float) -> (r: bool)
        ensures
            r == self.spec_le(other),
    {
        self.lt(other) || self.equals(other)
    }

    /// Numeric `self == 0.0`: true of both zeros and of nothing else.
    pub fn is_zero(self) -> (r: bool)
        ensures
            r == self.spec_equals(Float::spec_zero()),
            r == (self.magnitude() == 0),
    {
        proof {
            Float::lemma_compare_with_zero(self);
        }
        self.bits == ZERO_BITS || self.bits == SIGN_BIT
    }

    /// Numeric `self >= 0.0`: true of both zeros, false of NaN.
    pub fn is_nonnegative(self) -> (r: bool)
        ensures
            r == Float::spec_zero().spec_le(self),
            r == (!self.spec_is_nan() && (!self.spec_is_sign_negative() || self.magnitude() == 0)),
    {
        proof {
            Float::lemma_compare_with_zero(self);
        }
        Float::zero().le(self)
    }

    /// Numeric `self < 0.0`: false of both zeros and of NaN.
    pub fn is_negative(self) -> (r: bool)
        ensures
            r == self.spec_lt(Float::spec_zero()),
            r == (!self.spec_is_nan() && self.spec_is_sign_negative() && self.magnitude() != 0),
    {
        proof {
            Float::lemma_compare_with_zero(self);
        }
        self.lt(Float::zero())
    }

    /// Numeric `self <= 0.0`: true of both zeros, false of NaN.
    pub fn is_nonpositive(self) -> (r: bool)
        ensures
            r == self.spec_le(Float::spec_zero()),
            r == (!self.spec_is_nan() && (self.spec_is_sign_negative() || self.magnitude() == 0)),
    {
        proof {
            Float::lemma_compare_with_zero(self);
        }
        self.le(Float::zero())
    }

    /// Whether `self` sorts strictly before `other`: a NaN before every
    /// number, a number before every greater number.
    pub fn sorts_before(self, other: Float) -> (r: bool)
        ensures
            r == (self.rank() < other.rank()),
            self.spec_is_nan() && !other.spec_is_nan() ==> r,
            !self.spec_is_nan() && !other.spec_is_nan() ==> r == self.spec_lt(other),
    {
        proof {
            Float::lemma_place_orders_values(self, other);
            if self.spec_is_nan() && !other.spec_is_nan() {
                Float::lemma_nan_ranks_first(self, other);
            }
        }
        if self.is_nan() {
            !other.is_nan()
        } else if other.is_nan() {
            false
        } else {
            self.lt(other)
        }
    }
}

} // verus!

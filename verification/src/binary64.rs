//! Double-precision numbers read through their IEEE 754 bit patterns.
//!
//! A pattern has one sign bit, eleven exponent bits and fifty-two fraction bits.
//! Every finite pattern is an integer multiple of `2^-1074`, so its value is
//! modelled exactly by the integer `value * 2^1074`.

use vstd::prelude::*;
use vstd::arithmetic::power2::pow2;
use vstd::arithmetic::power2::lemma_pow2_pos;
use vstd::arithmetic::power2::lemma_pow2_unfold;
use vstd::arithmetic::power2::lemma_pow2_adds;
use vstd::arithmetic::power2::lemma_pow2_strictly_increases;
use vstd::arithmetic::power2::lemma2_to64;
use vstd::arithmetic::power2::lemma2_to64_rest;

verus! {

/// The pattern with only the sign bit set, `2^63`.
pub const SIGN_BIT: u64 = 0x8000_0000_0000_0000;

/// The weight of the lowest exponent bit, `2^52`.
pub const HIDDEN_BIT: u64 = 0x0010_0000_0000_0000;

/// The pattern of positive infinity; larger magnitudes are NaNs.
pub const INFINITY_BITS: u64 = 0x7ff0_0000_0000_0000;

/// The pattern of the number one.
pub const ONE_BITS: u64 = 0x3ff0_0000_0000_0000;

/// The extended real number that a binary64 pattern stands for.
pub enum Number {
    /// A finite value `v`, given as the integer `v * 2^1074`. Both zeros are `Finite(0)`.
    Finite(int),
    /// Positive or negative infinity.
    Infinite { negative: bool },
    /// Not a number.
    NotANumber,
}

impl Number {
    /// The IEEE 754 "less than": false whenever either side is not a number.
    pub open spec fn lt(self, other: Number) -> bool {
        match (self, other) {
            (Number::Finite(a), Number::Finite(b)) => a < b,
            (Number::Finite(_), Number::Infinite { negative }) => !negative,
            (Number::Infinite { negative }, Number::Finite(_)) => negative,
            (Number::Infinite { negative: a }, Number::Infinite { negative: b }) => a && !b,
            _ => false,
        }
    }

    /// Numeric equality: false whenever either side is not a number.
    pub open spec fn same(self, other: Number) -> bool {
        !(self is NotANumber) && self == other
    }
}

/// A double-precision number, held as its bit pattern.
#[derive(Clone, Copy, Debug, PartialEq, Eq, Structural)]
pub struct Binary64 {
    pub bits: u64,
}

impl View for Binary64 {
    type V = Number;

    open spec fn view(&self) -> Number {
        if self.magnitude_bits() > INFINITY_BITS {
            Number::NotANumber
        } else if self.magnitude_bits() == INFINITY_BITS {
            Number::Infinite { negative: self.sign() }
        } else {
            Number::Finite(self.scaled())
        }
    }
}

impl Binary64 {
    /// The pattern without its sign bit.
    pub open spec fn magnitude_bits(self) -> u64 {
        self.bits % SIGN_BIT
    }

    /// The sign bit.
    pub open spec fn sign(self) -> bool {
        self.bits >= SIGN_BIT
    }

    /// The biased exponent field, in `0..=2047`.
    pub open spec fn exponent(self) -> nat {
        (self.magnitude_bits() / HIDDEN_BIT) as nat
    }

    /// The fraction field, below `2^52`.
    pub open spec fn fraction(self) -> nat {
        (self.bits % HIDDEN_BIT) as nat
    }

    /// The integer significand: the fraction, with the hidden bit for normal numbers.
    pub open spec fn significand(self) -> nat {
        if self.exponent() == 0 {
            self.fraction()
        } else {
            self.fraction() + HIDDEN_BIT as nat
        }
    }

    /// The binary exponent of the significand's unit, counted from `2^-1074`.
    pub open spec fn shift(self) -> nat {
        if self.exponent() == 0 {
            0
        } else {
            (self.exponent() - 1) as nat
        }
    }

    /// The absolute value times `2^1074`. Meaningful for finite patterns.
    pub open spec fn magnitude(self) -> nat {
        self.significand() * pow2(self.shift())
    }

    /// The value times `2^1074`. Meaningful for finite patterns.
    pub open spec fn scaled(self) -> int {
        if self.sign() {
            -(self.magnitude() as int)
        } else {
            self.magnitude() as int
        }
    }

    /// Wraps a bit pattern.
    pub fn from_bits(bits: u64) -> (x: Binary64)
        ensures
            x.bits == bits,
    {
        Binary64 { bits }
    }

    /// The bit pattern.
    pub fn to_bits(&self) -> (bits: u64)
        ensures
            bits == self.bits,
    {
        self.bits
    }

    /// The number one.
    pub fn one() -> (x: Binary64)
        ensures
            x.bits == ONE_BITS,
            x@ == Number::Finite(pow2(1074) as int),
    {
        proof {
            lemma_one();
        }
        Binary64 { bits: ONE_BITS }
    }

    /// The pattern without its sign bit.
    pub fn abs_bits(&self) -> (m: u64)
        ensures
            m == self.magnitude_bits(),
            m < SIGN_BIT,
    {
        self.bits % SIGN_BIT
    }

    /// Whether the sign bit is set. Holds of negative zero and of some NaNs too.
    pub fn is_sign_negative(&self) -> (r: bool)
        ensures
            r == self.sign(),
    {
        self.bits >= SIGN_BIT
    }

    /// Whether the pattern is a NaN.
    pub fn is_nan(&self) -> (r: bool)
        ensures
            r == (self@ is NotANumber),
    {
        self.abs_bits() > INFINITY_BITS
    }

    /// Whether the pattern is an infinity.
    pub fn is_infinite(&self) -> (r: bool)
        ensures
            r == (self@ is Infinite),
    {
        self.abs_bits() == INFINITY_BITS
    }

    /// Whether the pattern is a finite number: zero, subnormal or normal.
    pub fn is_finite(&self) -> (r: bool)
        ensures
            r == (self@ is Finite),
    {
        self.abs_bits() < INFINITY_BITS
    }

    /// The biased exponent field.
    pub fn exponent_field(&self) -> (e: u64)
        ensures
            e == self.exponent(),
            e <= 2047,
            (self@ is Finite) == (e <= 2046),
    {
        self.abs_bits() / HIDDEN_BIT
    }

    /// The integer significand.
    pub fn significand_field(&self) -> (m: u64)
        ensures
            m == self.significand(),
            m < 2 * HIDDEN_BIT,
            self.exponent() != 0 ==> m >= HIDDEN_BIT,
            self.exponent() == 0 ==> m < HIDDEN_BIT,
            (m == 0) == (self.magnitude_bits() == 0),
    {
        let fraction: u64 = self.bits % HIDDEN_BIT;
        if self.exponent_field() == 0 {
            fraction
        } else {
            fraction + HIDDEN_BIT
        }
    }

    /// The IEEE 754 comparison `self < other`.
    pub fn lt(&self, other: &Binary64) -> (r: bool)
        ensures
            r == self@.lt(other@),
    {
        if self.is_nan() || other.is_nan() {
            return false;
        }
        let a: u64 = self.abs_bits();
        let b: u64 = other.abs_bits();
        proof {
            lemma_magnitude_order(*self, *other);
            lemma_magnitude_order(*other, *self);
            lemma_magnitude_zero(*self);
            lemma_magnitude_zero(*other);
        }
        if self.is_sign_negative() {
            if other.is_sign_negative() {
                b < a
            } else {
                a != 0 || b != 0
            }
        } else {
            if other.is_sign_negative() {
                false
            } else {
                a < b
            }
        }
    }

    /// The IEEE 754 comparison `self == other`: the two zeros are equal, a NaN equals nothing.
    pub fn same_value(&self, other: &Binary64) -> (r: bool)
        ensures
            r == self@.same(other@),
    {
        if self.is_nan() || other.is_nan() {
            return false;
        }
        let a: u64 = self.abs_bits();
        let b: u64 = other.abs_bits();
        proof {
            lemma_magnitude_order(*self, *other);
            lemma_magnitude_order(*other, *self);
            lemma_magnitude_zero(*self);
            lemma_magnitude_zero(*other);
        }
        (a == 0 && b == 0) || self.bits == other.bits
    }
}

/// The pattern `ONE_BITS` stands for the number one, `2^1074` units of `2^-1074`.
pub proof fn lemma_one()
    ensures
        (Binary64 { bits: ONE_BITS })@ == Number::Finite(pow2(1074) as int),
{
    let x = Binary64 { bits: ONE_BITS };
    assert(x.magnitude_bits() == ONE_BITS);
    assert(x.exponent() == 1023);
    assert(x.fraction() == 0);
    assert(x.significand() == HIDDEN_BIT);
    assert(x.shift() == 1022);
    lemma2_to64_rest();
    assert(pow2(52) == HIDDEN_BIT);
    lemma_pow2_adds(52, 1022);
    assert(x.magnitude() == pow2(1074));
}

/// Bounds on the magnitude of any pattern by powers of two of its exponent field.
pub proof fn lemma_magnitude_bounds(x: Binary64)
    ensures
        x.magnitude() < pow2(52) * pow2(x.exponent()),
        x.exponent() >= 1 ==> x.magnitude() >= pow2(52) * pow2((x.exponent() - 1) as nat),
{
    lemma2_to64_rest();
    let f = x.fraction();
    let e = x.exponent();
    let h = pow2(52);
    assert(h == HIDDEN_BIT);
    assert(f < h);
    if e == 0 {
        lemma2_to64();
        assert(pow2(0) == 1);
        assert(x.magnitude() == f * 1);
        assert(h * pow2(0) == h) by (nonlinear_arith)
            requires
                pow2(0) == 1,
        ;
    } else {
        let p = pow2((e - 1) as nat);
        lemma_pow2_pos((e - 1) as nat);
        lemma_pow2_unfold(e);
        assert(pow2(e) == 2 * p);
        assert(x.magnitude() == (f + h) * p);
        assert((f + h) * p < h * (2 * p) && (f + h) * p >= h * p) by (nonlinear_arith)
            requires
                f < h,
                p > 0,
        ;
    }
}

/// Among patterns without the sign bit, a larger pattern has a larger magnitude.
pub proof fn lemma_magnitude_order(a: Binary64, b: Binary64)
    ensures
        a.magnitude_bits() < b.magnitude_bits() ==> a.magnitude() < b.magnitude(),
        a.magnitude_bits() == b.magnitude_bits() ==> a.magnitude() == b.magnitude(),
{
    let ea = a.exponent();
    let eb = b.exponent();
    assert(a.magnitude_bits() == ea * HIDDEN_BIT + a.fraction());
    assert(b.magnitude_bits() == eb * HIDDEN_BIT + b.fraction());
    if a.magnitude_bits() < b.magnitude_bits() {
        if ea == eb {
            assert(a.fraction() < b.fraction());
            let p = pow2(a.shift());
            lemma_pow2_pos(a.shift());
            assert(a.significand() < b.significand());
            assert(a.significand() * p < b.significand() * p) by (nonlinear_arith)
                requires
                    a.significand() < b.significand(),
                    p > 0,
            ;
        } else {
            assert(ea < eb);
            lemma_magnitude_bounds(a);
            lemma_magnitude_bounds(b);
            let pa = pow2(ea);
            let pb = pow2((eb - 1) as nat);
            if ea < eb - 1 {
                lemma_pow2_strictly_increases(ea, (eb - 1) as nat);
            }
            assert(pa <= pb);
            assert(pow2(52) * pa <= pow2(52) * pb) by (nonlinear_arith)
                requires
                    pa <= pb,
            ;
        }
    }
}

/// Only the two zero patterns have magnitude zero.
pub proof fn lemma_magnitude_zero(x: Binary64)
    ensures
        (x.magnitude() == 0) == (x.magnitude_bits() == 0),
{
    let zero = Binary64 { bits: 0 };
    assert(zero.magnitude_bits() == 0);
    assert(zero.exponent() == 0);
    assert(zero.fraction() == 0);
    assert(zero.magnitude() == 0) by (nonlinear_arith)
        requires
            zero.magnitude() == 0 * pow2(zero.shift()),
    ;
    lemma_magnitude_order(zero, x);
}

} // verus!

//! Grayscale intensities from smooth iteration counts.
//!
//! A count `mu` is divided by the normalisation bound, clamped to `[0, 1]`, scaled to
//! `0..=255` and rounded to the nearest integer, halves upward. The computation is
//! exact: it works on the integer that a finite pattern stands for, not on rounded
//! intermediate results.

use vstd::prelude::*;
use vstd::arithmetic::power2::pow2;
use vstd::arithmetic::power2::lemma_pow2_pos;
use vstd::arithmetic::power2::lemma_pow2_adds;
use vstd::arithmetic::power2::lemma_pow2_strictly_increases;
use vstd::arithmetic::power2::lemma2_to64;
use vstd::arithmetic::power2::lemma2_to64_rest;
use vstd::arithmetic::div_mod::lemma_div_is_ordered;
use vstd::arithmetic::div_mod::lemma_div_multiples_vanish_quotient;
use vstd::arithmetic::div_mod::lemma_fundamental_div_mod_converse;
use vstd::arithmetic::div_mod::lemma_fundamental_div_mod;
use vstd::arithmetic::div_mod::lemma_mod_bound;
use vstd::bits::lemma_u64_shl_is_mul;
use crate::binary64::Binary64;
use crate::binary64::Number;
use crate::binary64::lemma_magnitude_zero;
use crate::escape::SmoothResult;

verus! {

/// The brightest channel value.
pub const MAX_CHANNEL: u8 = 255;

/// An RGB colour with eight bits per channel.
#[derive(Clone, Copy, Debug, PartialEq, Eq, Structural)]
pub struct PixelColor {
    pub red: u8,
    pub green: u8,
    pub blue: u8,
}

impl PixelColor {
    /// The gray whose three channels all equal `level`.
    pub open spec fn spec_gray(level: u8) -> PixelColor {
        PixelColor { red: level, green: level, blue: level }
    }

    /// The gray whose three channels all equal `level`.
    #[verifier::when_used_as_spec(spec_gray)]
    pub fn gray(level: u8) -> (color: PixelColor)
        ensures
            color == PixelColor::spec_gray(level),
    {
        PixelColor { red: level, green: level, blue: level }
    }

    /// Black, the colour of points that never escaped.
    pub open spec fn spec_black() -> PixelColor {
        PixelColor { red: 0, green: 0, blue: 0 }
    }

    /// Black, the colour of points that never escaped.
    #[verifier::when_used_as_spec(spec_black)]
    pub fn black() -> (color: PixelColor)
        ensures
            color == PixelColor::spec_black(),
    {
        PixelColor { red: 0, green: 0, blue: 0 }
    }

    /// Whether the three channels are equal.
    pub open spec fn is_gray(self) -> bool {
        self.red == self.green && self.green == self.blue
    }

    /// The channels in the order red, green, blue.
    pub fn channels(&self) -> (rgb: [u8; 3])
        ensures
            rgb@ == seq![self.red, self.green, self.blue],
    {
        let rgb: [u8; 3] = [self.red, self.green, self.blue];
        assert(rgb@ =~= seq![self.red, self.green, self.blue]);
        rgb
    }
}

/// `floor(255 * v / bound + 1/2)` for the value `v = scaled / 2^1074`: the nearest
/// integer to `255 * v / bound`, halves upward.
pub open spec fn rounded_level(scaled: int, bound: int) -> int {
    (510 * scaled + bound * pow2(1074)) / (2 * (bound * pow2(1074)))
}

/// The channel value of the ratio `mu / bound`: the ratio is clamped to `[0, 1]`,
/// scaled by 255 and rounded. An infinity clamps like any value beyond the range;
/// a NaN gives 0.
pub open spec fn intensity_of(mu: Number, bound: int) -> int {
    match mu {
        Number::Finite(scaled) => {
            let level = rounded_level(scaled, bound);
            if level < 0 {
                0
            } else if level > 255 {
                255
            } else {
                level
            }
        },
        Number::Infinite { negative } => if negative {
            0
        } else {
            255
        },
        Number::NotANumber => 0,
    }
}

/// The bound, counted in units of `2^-1074`, is positive.
proof fn lemma_denominator_positive(bound: int)
    requires
        bound > 0,
    ensures
        bound * pow2(1074) > 0,
{
    lemma_pow2_pos(1074);
    assert(bound * pow2(1074) > 0) by (nonlinear_arith)
        requires
            bound > 0,
            pow2(1074) > 0,
    ;
}

/// Multiplying numerator and denominator by the same positive factor keeps the quotient.
proof fn lemma_common_factor(a: int, d: int, c: int)
    requires
        0 <= a,
        0 < d,
        0 < c,
    ensures
        (a * c) / (d * c) == a / d,
{
    lemma_div_multiples_vanish_quotient(c, a, d);
    assert(c * a == a * c) by (nonlinear_arith);
    assert(c * d == d * c) by (nonlinear_arith);
}

/// A value that is zero or negative has level zero or less.
proof fn lemma_level_low(scaled: int, bound: int)
    requires
        bound > 0,
        scaled <= 0,
    ensures
        rounded_level(scaled, bound) <= 0,
{
    lemma_denominator_positive(bound);
    let d = bound * pow2(1074);
    let x = 510 * scaled + d;
    assert(x <= d);
    assert(0 < 2 * d);
    lemma_div_is_ordered(x, d, 2 * d);
    lemma_fundamental_div_mod_converse(d, 2 * d, 0, d);
}

/// A value of at least `bound` has level 255 or more.
proof fn lemma_level_high(scaled: int, bound: int)
    requires
        bound > 0,
        scaled >= bound * pow2(1074),
    ensures
        rounded_level(scaled, bound) >= 255,
{
    lemma_denominator_positive(bound);
    let d = bound * pow2(1074);
    let y = 510 * scaled + d;
    assert(511 * d <= y);
    assert(0 < 2 * d);
    lemma_div_is_ordered(511 * d, y, 2 * d);
    lemma_fundamental_div_mod_converse(511 * d, 2 * d, 255, d);
}

/// The level of `value * 2^up`, for a whole number `value`, needs no power of two.
proof fn lemma_level_of_whole(significand: int, up: nat, value: int, bound: int)
    requires
        bound > 0,
        significand >= 0,
        value == significand * pow2(up),
    ensures
        rounded_level(significand * pow2(up + 1074), bound) == (510 * value + bound) / (2
            * bound),
{
    let p = pow2(1074);
    lemma_pow2_pos(1074);
    lemma_pow2_pos(up);
    lemma_pow2_adds(up, 1074);
    let scaled = significand * pow2(up + 1074);
    assert(scaled == value * p) by (nonlinear_arith)
        requires
            scaled == significand * (pow2(up) * p),
            value == significand * pow2(up),
    ;
    assert(value >= 0) by (nonlinear_arith)
        requires
            value == significand * pow2(up),
            significand >= 0,
            pow2(up) > 0,
    ;
    let a = 510 * value + bound;
    let d = 2 * bound;
    assert(510 * scaled + bound * p == a * p) by (nonlinear_arith)
        requires
            scaled == value * p,
            a == 510 * value + bound,
    ;
    assert(2 * (bound * p) == d * p) by (nonlinear_arith)
        requires
            d == 2 * bound,
    ;
    lemma_common_factor(a, d, p as int);
}

/// The level of `significand / 2^down` needs only the power `2^down`.
proof fn lemma_level_of_fraction(significand: int, shift: nat, down: nat, bound: int)
    requires
        bound > 0,
        significand >= 0,
        shift + down == 1074,
    ensures
        rounded_level(significand * pow2(shift), bound) == (510 * significand + bound * pow2(
            down,
        )) / (2 * (bound * pow2(down))),
{
    let r = pow2(shift);
    let u = pow2(down);
    lemma_pow2_pos(shift);
    lemma_pow2_pos(down);
    lemma_pow2_adds(shift, down);
    assert(pow2(1074) == r * u);
    let scaled = significand * r;
    let a = 510 * significand + bound * u;
    let d = 2 * (bound * u);
    assert(510 * scaled + bound * (r * u) == a * r) by (nonlinear_arith)
        requires
            scaled == significand * r,
            a == 510 * significand + bound * u,
    ;
    assert(2 * (bound * (r * u)) == d * r) by (nonlinear_arith)
        requires
            d == 2 * (bound * u),
    ;
    assert(a >= 0 && d > 0) by (nonlinear_arith)
        requires
            a == 510 * significand + bound * u,
            d == 2 * (bound * u),
            significand >= 0,
            bound > 0,
            u > 0,
    ;
    lemma_common_factor(a, d, r as int);
}

/// `2^exponent`, for an exponent below 64.
fn power_of_two(exponent: u64) -> (p: u64)
    requires
        exponent <= 63,
    ensures
        p == pow2(exponent as nat),
        1 <= p <= 0x8000_0000_0000_0000,
{
    proof {
        lemma2_to64_rest();
        lemma_pow2_pos(exponent as nat);
        if exponent < 63 {
            lemma_pow2_strictly_increases(exponent as nat, 63);
        }
        lemma_u64_shl_is_mul(1, exponent);
    }
    1u64 << exponent
}

/// The channel value, in `0..=255`, for the count `mu` under the normalisation `bound`.
pub fn intensity(mu: Binary64, bound: u64) -> (level: u8)
    requires
        bound > 0,
    ensures
        level == intensity_of(mu@, bound as int),
{
    if mu.is_nan() {
        return 0;
    }
    if mu.is_infinite() {
        return if mu.is_sign_negative() {
            0
        } else {
            MAX_CHANNEL
        };
    }
    let significand: u64 = mu.significand_field();
    let exponent: u64 = mu.exponent_field();
    if mu.is_sign_negative() || significand == 0 {
        proof {
            lemma_magnitude_zero(mu);
            lemma_level_low(mu.scaled(), bound as int);
        }
        return 0;
    }
    let shift: u64 = if exponent == 0 {
        0
    } else {
        exponent - 1
    };
    assert(shift == mu.shift());
    assert(mu.scaled() == significand * pow2(shift as nat));
    let rounded: u128 = if shift >= 1074 {
        let up: u64 = shift - 1074;
        if up >= 12 {
            proof {
                lemma2_to64();
                lemma2_to64_rest();
                if up > 12 {
                    lemma_pow2_strictly_increases(12, up as nat);
                }
                lemma_pow2_adds(up as nat, 1074);
                lemma_pow2_pos(1074);
                let p = pow2(1074);
                let q = pow2(up as nat);
                assert(significand * (q * p) >= bound * p) by (nonlinear_arith)
                    requires
                        significand >= 0x0010_0000_0000_0000,
                        q >= 4096,
                        bound <= 0xffff_ffff_ffff_ffff,
                        p > 0,
                ;
                lemma_level_high(mu.scaled(), bound as int);
            }
            return MAX_CHANNEL;
        }
        let factor: u64 = power_of_two(up);
        proof {
            lemma2_to64();
            if up < 11 {
                lemma_pow2_strictly_increases(up as nat, 11);
            }
            assert(factor <= 2048);
            assert(significand * factor <= 0x0020_0000_0000_0000 * 2048) by (nonlinear_arith)
                requires
                    significand < 0x0020_0000_0000_0000,
                    factor <= 2048,
            ;
            lemma_level_of_whole(
                significand as int,
                up as nat,
                significand * factor,
                bound as int,
            );
        }
        let value: u128 = significand as u128 * factor as u128;
        (510 * value + bound as u128) / (2 * bound as u128)
    } else {
        let down: u64 = 1074 - shift;
        if down >= 64 {
            proof {
                lemma2_to64();
                if down > 64 {
                    lemma_pow2_strictly_increases(64, down as nat);
                }
                lemma_level_of_fraction(
                    significand as int,
                    shift as nat,
                    down as nat,
                    bound as int,
                );
                let u = pow2(down as nat);
                let a = 510 * significand + bound * u;
                let d = 2 * (bound * u);
                assert(0 <= a < d) by (nonlinear_arith)
                    requires
                        a == 510 * significand + bound * u,
                        d == 2 * (bound * u),
                        significand < 0x0020_0000_0000_0000,
                        significand >= 0,
                        u >= 0x1_0000_0000_0000_0000,
                        bound >= 1,
                ;
                lemma_fundamental_div_mod_converse(a, d, 0, a);
            }
            return 0;
        }
        let unit: u64 = power_of_two(down);
        proof {
            lemma_level_of_fraction(significand as int, shift as nat, down as nat, bound as int);
            assert(bound * unit <= 0xffff_ffff_ffff_ffff * 0x8000_0000_0000_0000)
                by (nonlinear_arith)
                requires
                    bound <= 0xffff_ffff_ffff_ffff,
                    unit <= 0x8000_0000_0000_0000,
            ;
            assert(bound * unit >= 1) by (nonlinear_arith)
                requires
                    bound >= 1,
                    unit >= 1,
            ;
        }
        let denominator: u128 = bound as u128 * unit as u128;
        (510 * significand as u128 + denominator) / (2 * denominator)
    };
    if rounded > 255 {
        MAX_CHANNEL
    } else {
        rounded as u8
    }
}

/// The colour of an evaluated point: black for an interior point, otherwise the gray
/// of the intensity of its smooth count.
pub open spec fn color_of(result: SmoothResult, bound: int) -> PixelColor {
    match result {
        SmoothResult::Interior => PixelColor::spec_black(),
        SmoothResult::Escaped(mu) => PixelColor::spec_gray(intensity_of(mu@, bound) as u8),
    }
}

/// The gray for a ratio `v` that is already normalised: `v` is clamped to `[0, 1]`,
/// scaled by 255 and rounded.
pub fn gradient(v: Binary64) -> (color: PixelColor)
    ensures
        color == PixelColor::spec_gray(intensity_of(v@, 1) as u8),
        color.is_gray(),
{
    PixelColor::gray(intensity(v, 1))
}

/// The gray for the smooth count `mu` under the normalisation `bound`.
pub fn color_lookup(mu: Binary64, bound: u64) -> (color: PixelColor)
    requires
        bound > 0,
    ensures
        color == PixelColor::spec_gray(intensity_of(mu@, bound as int) as u8),
        color.is_gray(),
{
    PixelColor::gray(intensity(mu, bound))
}

/// The colour of an evaluated point under the normalisation `bound`.
pub fn colorize(result: SmoothResult, bound: u64) -> (color: PixelColor)
    requires
        bound > 0,
    ensures
        color == color_of(result, bound as int),
        color.is_gray(),
        result is Interior ==> color == PixelColor::spec_black(),
{
    match result {
        SmoothResult::Interior => PixelColor::black(),
        SmoothResult::Escaped(mu) => color_lookup(mu, bound),
    }
}

/// Every intensity is a channel value: it lies in `0..=255`.
pub proof fn lemma_intensity_range(mu: Number, bound: int)
    ensures
        0 <= intensity_of(mu, bound) <= 255,
{
}

/// The intensity never decreases as the count grows, for a fixed bound: if `a` is
/// not greater than `b`, the intensity of `a` is not greater than that of `b`.
pub proof fn lemma_intensity_monotone(a: Number, b: Number, bound: int)
    requires
        bound > 0,
        !(a is NotANumber),
        !(b is NotANumber),
        !b.lt(a),
    ensures
        intensity_of(a, bound) <= intensity_of(b, bound),
{
    if let Number::Finite(x) = a {
        if let Number::Finite(y) = b {
            lemma_denominator_positive(bound);
            let d = bound * pow2(1074);
            lemma_div_is_ordered(510 * x + d, 510 * y + d, 2 * d);
        }
    }
}

/// The intensity clamps: a count of at least the bound is white, a count of zero or
/// less is black.
pub proof fn lemma_intensity_saturates(scaled: int, bound: int)
    requires
        bound > 0,
    ensures
        scaled >= bound * pow2(1074) ==> intensity_of(Number::Finite(scaled), bound) == 255,
        scaled <= 0 ==> intensity_of(Number::Finite(scaled), bound) == 0,
{
    if scaled >= bound * pow2(1074) {
        lemma_level_high(scaled, bound);
    }
    if scaled <= 0 {
        lemma_level_low(scaled, bound);
    }
}

/// Between the clamps the intensity is the nearest integer to `255 * mu / bound`:
/// with `d = bound * 2^1074`, the level `k` satisfies `k - 1/2 <= 255 * scaled / d <
/// k + 1/2`, here multiplied through by `2 * d`.
pub proof fn lemma_intensity_nearest(scaled: int, bound: int)
    requires
        bound > 0,
        0 <= scaled <= bound * pow2(1074),
    ensures
        ({
            let k = intensity_of(Number::Finite(scaled), bound);
            let d = bound * pow2(1074);
            (2 * k - 1) * d <= 510 * scaled < (2 * k + 1) * d
        }),
{
    lemma_denominator_positive(bound);
    let d = bound * pow2(1074);
    let x = 510 * scaled + d;
    let q = x / (2 * d);
    lemma_fundamental_div_mod(x, 2 * d);
    lemma_mod_bound(x, 2 * d);
    assert(x == (2 * d) * q + x % (2 * d));
    lemma_div_is_ordered(d, x, 2 * d);
    lemma_fundamental_div_mod_converse(d, 2 * d, 0, d);
    lemma_div_is_ordered(x, 511 * d, 2 * d);
    lemma_fundamental_div_mod_converse(511 * d, 2 * d, 255, d);
    assert(0 <= q <= 255);
    assert((2 * q - 1) * d == (2 * d) * q - d) by (nonlinear_arith);
    assert((2 * q + 1) * d == (2 * d) * q + d) by (nonlinear_arith);
}

} // verus!

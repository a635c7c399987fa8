//! Tone mapping, last step: from a gamma-corrected channel to a byte.
//!
//! A channel arrives as the square root of the mean radiance over the
//! samples. It is clamped to `[0, 0.999]`, scaled by 256 and cut off to an
//! integer. All of this is exact in doubles (256 is a power of two), so it can
//! be done on the bit pattern: the byte is the whole part of 256 times the
//! encoded number.

use vstd::prelude::*;
use vstd::arithmetic::power2::pow2;
use vstd::arithmetic::power2::lemma_pow2_adds;
use vstd::arithmetic::power2::lemma_pow2_pos;
use vstd::arithmetic::power2::lemma_pow2_strictly_increases;
use vstd::arithmetic::power2::lemma2_to64;
use vstd::arithmetic::power2::lemma2_to64_rest;
use vstd::arithmetic::div_mod::lemma_basic_div;
use vstd::arithmetic::div_mod::lemma_div_is_ordered;
use vstd::arithmetic::div_mod::lemma_div_multiples_vanish_quotient;
use vstd::bits::lemma_u64_shr_is_div;
use crate::scalar::Scalar;
use crate::scalar::nan;
use crate::scalar::rank;

verus! {

/// The pattern of `0.999`, the upper end of the clamp.
pub const CLAMP_MAX_BITS: u64 = 0x3FEF_F7CE_D916_872B;

/// Two to the 52: the weight of the exponent field in a pattern, and the
/// implicit leading bit of a significand.
pub const HIDDEN_BIT: u64 = 0x10_0000_0000_0000;

/// The exponent field of a pattern without sign bit.
pub open spec fn exponent(bits: u64) -> nat {
    (bits / HIDDEN_BIT) as nat
}

/// The fraction field of a pattern.
pub open spec fn fraction(bits: u64) -> int {
    (bits % HIDDEN_BIT) as int
}

/// The number that a pattern without sign bit encodes, in units of
/// `2^-1075`: for a subnormal `fraction * 2^-1074`, for a normal number
/// `(2^52 + fraction) * 2^(exponent - 1075)`.
pub open spec fn scaled_value(bits: u64) -> int {
    if exponent(bits) == 0 {
        2 * fraction(bits)
    } else {
        (HIDDEN_BIT + fraction(bits)) * (pow2(exponent(bits)) as int)
    }
}

/// The pattern of a number that is no NaN after clamping to `[0, 0.999]`.
pub open spec fn clamped(s: Scalar) -> u64 {
    if rank(s@) <= 0 {
        0
    } else if s@ > CLAMP_MAX_BITS {
        CLAMP_MAX_BITS
    } else {
        s@
    }
}

/// The byte of a channel: the whole part of 256 times the clamped number,
/// and 0 for a NaN.
pub open spec fn quantize_spec(s: Scalar) -> int {
    if nan(s@) {
        0
    } else {
        (256 * scaled_value(clamped(s))) / (pow2(1075) as int)
    }
}

/// A larger pattern encodes a larger number.
proof fn lemma_scaled_value_ordered(x: u64, y: u64)
    requires
        x <= y,
    ensures
        scaled_value(x) <= scaled_value(y),
{
    let ex = exponent(x);
    let ey = exponent(y);
    let fx = fraction(x);
    let fy = fraction(y);
    let h: int = HIDDEN_BIT as int;
    assert(x == h * ex + fx && 0 <= fx < h) by {
        vstd::arithmetic::div_mod::lemma_fundamental_div_mod(x as int, h);
    }
    assert(y == h * ey + fy && 0 <= fy < h) by {
        vstd::arithmetic::div_mod::lemma_fundamental_div_mod(y as int, h);
    }
    assert(ex <= ey) by {
        lemma_div_is_ordered(x as int, y as int, h);
    }
    lemma_pow2_pos(ex);
    lemma_pow2_pos(ey);
    if ex == ey {
        assert(fx <= fy);
        assert((h + fx) * pow2(ex) <= (h + fy) * pow2(ex)) by (nonlinear_arith)
            requires
                fx <= fy,
                pow2(ex) > 0,
        ;
    } else {
        lemma_pow2_adds(ex, 1);
        lemma2_to64();
        assert(pow2(ex + 1) <= pow2(ey)) by {
            if ex + 1 < ey {
                lemma_pow2_strictly_increases(ex + 1, ey);
            }
        }
        let px: int = pow2(ex) as int;
        let py: int = pow2(ey) as int;
        assert(scaled_value(x) < 2 * h * px) by (nonlinear_arith)
            requires
                scaled_value(x) == (if ex == 0 {
                    2 * fx
                } else {
                    (h + fx) * px
                }),
                0 <= fx < h,
                px >= 1,
        ;
        assert(2 * h * px <= (h + fy) * py) by (nonlinear_arith)
            requires
                2 * px <= py,
                0 <= fy,
                h > 0,
                px >= 1,
        ;
    }
}

/// The whole part of 256 times the number that a pattern encodes, for a
/// number below one: nothing below `2^-8`, and from there on the significand
/// without the bits that stand for less than `1/256`.
proof fn lemma_scaled_floor(bits: u64)
    requires
        bits <= CLAMP_MAX_BITS,
    ensures
        exponent(bits) <= 1022,
        0 <= fraction(bits) < HIDDEN_BIT,
        (256 * scaled_value(bits)) / (pow2(1075) as int) == if exponent(bits) < 1015 {
            0
        } else {
            (HIDDEN_BIT + fraction(bits)) / (pow2((1067 - exponent(bits)) as nat) as int)
        },
        0 <= (256 * scaled_value(bits)) / (pow2(1075) as int) <= 255,
{
    let e = exponent(bits);
    let f = fraction(bits);
    let v = scaled_value(bits);
    let p = pow2(e) as int;
    lemma2_to64();
    lemma2_to64_rest();
    lemma_pow2_pos(e);
    assert(e <= 1022) by {
        lemma_div_is_ordered(bits as int, CLAMP_MAX_BITS as int, HIDDEN_BIT as int);
    }
    if e < 1015 {
        assert(0 <= v < pow2(53) * p) by (nonlinear_arith)
            requires
                v == (if e == 0 {
                    2 * f
                } else {
                    (HIDDEN_BIT + f) * p
                }),
                0 <= f < HIDDEN_BIT,
                pow2(53) == 2 * HIDDEN_BIT,
                p >= 1,
        ;
        lemma_pow2_adds(53, e);
        lemma_pow2_adds(8, 53 + e);
        assert(pow2(61 + e) <= pow2(1075)) by {
            if 61 + e < 1075 {
                lemma_pow2_strictly_increases(61 + e, 1075);
            }
        }
        assert(0 <= 256 * v < pow2(1075)) by (nonlinear_arith)
            requires
                0 <= v < pow2(53) * p,
                pow2(53 + e) == pow2(53) * p,
                pow2(61 + e) == 256 * pow2(53 + e),
                pow2(61 + e) <= pow2(1075),
        ;
        lemma_basic_div(256 * v, pow2(1075) as int);
    } else {
        let significand: int = HIDDEN_BIT + f;
        let shift: nat = (1067 - e) as nat;
        let d = pow2(shift) as int;
        lemma_pow2_pos(shift);
        lemma_pow2_adds(8, e);
        lemma_pow2_adds(8 + e, shift);
        let x: int = 256 * p;
        assert(pow2(1075) == x * d);
        lemma_div_multiples_vanish_quotient(x, significand, d);
        assert(256 * v == x * significand) by (nonlinear_arith)
            requires
                v == significand * p,
                x == 256 * p,
        ;
        assert(pow2(45) <= d) by {
            if 45 < shift {
                lemma_pow2_strictly_increases(45, shift);
            }
        }
        lemma_pow2_adds(45, 8);
        assert(0 <= significand / d <= 255) by (nonlinear_arith)
            requires
                0 <= significand < pow2(53),
                pow2(53) == pow2(45) * 256,
                0 < pow2(45) <= d,
        ;
    }
}

/// The whole part of 256 times the number that a pattern without sign bit
/// encodes, for a number below one.
fn scale(bits: u64) -> (b: u8)
    requires
        bits <= CLAMP_MAX_BITS,
    ensures
        b == (256 * scaled_value(bits)) / (pow2(1075) as int),
{
    proof {
        lemma_scaled_floor(bits);
    }
    let e: u64 = bits / HIDDEN_BIT;
    if e < 1015 {
        return 0;
    }
    let significand: u64 = HIDDEN_BIT + bits % HIDDEN_BIT;
    let shift: u64 = 1067 - e;
    proof {
        lemma_u64_shr_is_div(significand, shift);
    }
    (significand >> shift) as u8
}

/// The byte of a gamma-corrected channel: clamped to `[0, 0.999]`, scaled by
/// 256 and cut off. A NaN gives 0.
pub fn quantize(s: Scalar) -> (b: u8)
    ensures
        b == quantize_spec(s),
{
    if s.is_nan() {
        return 0;
    }
    if !s.is_positive() {
        proof {
            lemma_pow2_pos(1075);
            lemma_basic_div(0, pow2(1075) as int);
        }
        return 0;
    }
    let bits: u64 = s.to_bits();
    if bits > CLAMP_MAX_BITS {
        scale(CLAMP_MAX_BITS)
    } else {
        scale(bits)
    }
}

/// The three bytes of a pixel, from its three gamma-corrected channels.
pub fn color_rgb(r: Scalar, g: Scalar, b: Scalar) -> (rgb: (u8, u8, u8))
    ensures
        rgb.0 == quantize_spec(r),
        rgb.1 == quantize_spec(g),
        rgb.2 == quantize_spec(b),
{
    (quantize(r), quantize(g), quantize(b))
}

/// Every channel gets a byte: the result lies in `[0, 255]`.
pub proof fn lemma_quantize_in_range(s: Scalar)
    ensures
        0 <= quantize_spec(s) <= 255,
{
    if !nan(s@) {
        lemma_scaled_floor(clamped(s));
    }
}

/// Everything from `0.999` on is the brightest byte, and nothing that is not
/// above zero is more than the darkest.
pub proof fn lemma_quantize_ends(s: Scalar)
    ensures
        !nan(s@) && rank(s@) >= CLAMP_MAX_BITS ==> quantize_spec(s) == 255,
        rank(s@) <= 0 ==> quantize_spec(s) == 0,
{
    lemma_scaled_floor(0);
    lemma_scaled_floor(CLAMP_MAX_BITS);
    lemma2_to64_rest();
    assert(exponent(CLAMP_MAX_BITS) == 1022 && fraction(CLAMP_MAX_BITS) == 0xF_F7CE_D916_872B);
    assert(pow2(45) == 0x2000_0000_0000);
    assert((HIDDEN_BIT + 0xF_F7CE_D916_872B) / 0x2000_0000_0000 == 255);
}

/// A brighter channel never gets a smaller byte.
pub proof fn lemma_quantize_monotone(a: Scalar, b: Scalar)
    requires
        a.le_spec(b),
    ensures
        quantize_spec(a) <= quantize_spec(b),
{
    lemma_scaled_value_ordered(clamped(a), clamped(b));
    lemma_pow2_pos(1075);
    lemma_div_is_ordered(
        256 * scaled_value(clamped(a)),
        256 * scaled_value(clamped(b)),
        pow2(1075) as int,
    );
}

} // verus!

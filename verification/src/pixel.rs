//! The pixel value type: a 4-channel, 8-bit-per-channel color sample.
//!
//! `r`, `g` and `b` are gamma-encoded (perceptual intensity proportional to
//! `(channel/255)^2.2`); `a` is linear opacity, `0` transparent, `255` opaque.

use vstd::arithmetic::div_mod::lemma_basic_div;
use vstd::arithmetic::div_mod::lemma_div_is_ordered;
use vstd::arithmetic::div_mod::lemma_fundamental_div_mod;
use vstd::arithmetic::div_mod::lemma_small_mod;
use vstd::arithmetic::mul::lemma_mul_inequality;
use vstd::arithmetic::power2::lemma2_to64;
use vstd::arithmetic::power2::lemma_pow2_pos;
use vstd::arithmetic::power2::lemma_pow2_strictly_increases;
use vstd::arithmetic::power2::lemma_pow2_unfold;
use vstd::arithmetic::power2::pow2;
use vstd::bits::lemma_u64_shl_is_mul;
use vstd::bits::lemma_u64_shr_is_div;
use vstd::prelude::*;

verus! {

/// The bit pattern of the 16-bit floating-point value 1.0: the upper
/// endpoint of the linear range the conversion is specified on.
pub const LINEAR16_ONE: u16 = 0x3C00;

/// A single preview-image pixel: four 8-bit channels, `r`, `g`, `b`, `a`,
/// in that order.
///
/// Intensity of `r`, `g`, `b` is proportional to `pow(x/255, 2.2)`;
/// `a` is opacity, `0` == transparent, `255` == opaque.
/// Equality is structural: all four channels must match.
#[derive(Debug, Clone, Copy, PartialEq, Eq, Structural)]
pub struct PreviewRgba {
    /// Red component of the pixel's color.
    pub r: u8,
    /// Green component of the pixel's color.
    pub g: u8,
    /// Blue component of the pixel's color.
    pub b: u8,
    /// The pixel's alpha.
    pub a: u8,
}

impl PreviewRgba {
    /// The default pixel value: opaque black, `{0, 0, 0, 255}`.
    pub open spec fn opaque_black() -> PreviewRgba {
        PreviewRgba { r: 0, g: 0, b: 0, a: 255 }
    }

    /// Fully transparent black, `{0, 0, 0, 0}`; used as a sentinel value.
    pub open spec fn transparent_black() -> PreviewRgba {
        PreviewRgba { r: 0, g: 0, b: 0, a: 0 }
    }

    /// Creates a `PreviewRgba` from four raw channel bytes; no conversion.
    pub fn from_u8(r: u8, g: u8, b: u8, a: u8) -> (p: PreviewRgba)
        ensures
            p == (PreviewRgba { r, g, b, a }),
    {
        PreviewRgba { r, g, b, a }
    }

    /// Creates a `PreviewRgba` from four 16-bit linear-light samples,
    /// converting each channel to the 0-255 gamma-domain byte range by
    /// `value * 255`, truncated toward zero.
    ///
    /// The conversion is specified on samples in `[0, 1]` and does not
    /// validate its inputs: a sample outside that range narrows the way
    /// the language narrows a float to a byte (saturating; a NaN gives 0).
    pub fn from_f16(r: Linear16, g: Linear16, b: Linear16, a: Linear16) -> (p: PreviewRgba)
        ensures
            p.r == linear16_byte(r.bits),
            p.g == linear16_byte(g.bits),
            p.b == linear16_byte(b.bits),
            p.a == linear16_byte(a.bits),
    {
        PreviewRgba {
            r: linear16_to_byte(r),
            g: linear16_to_byte(g),
            b: linear16_to_byte(b),
            a: linear16_to_byte(a),
        }
    }

    /// Creates a `PreviewRgba` where all four channels are 0 (zero).
    pub fn zero() -> (p: PreviewRgba)
        ensures
            p == PreviewRgba::transparent_black(),
    {
        PreviewRgba::from_u8(0u8, 0u8, 0u8, 0u8)
    }
}

impl Default for PreviewRgba {
    /// The default pixel is opaque black.
    fn default() -> (p: PreviewRgba)
        ensures
            p == PreviewRgba::opaque_black(),
    {
        PreviewRgba::from_u8(0u8, 0u8, 0u8, 255u8)
    }
}

/// A 16-bit floating-point linear-light color sample, held as the bit
/// pattern of an IEEE 754 binary16 value: 1 sign bit, then 5 exponent
/// bits, then 10 significand bits.
///
/// This is the library's own carrier for half-precision input: a caller
/// that holds a half-precision float passes its bits unchanged.
#[derive(Debug, Clone, Copy, PartialEq, Eq, Structural)]
pub struct Linear16 {
    /// The IEEE 754 binary16 bit pattern.
    pub bits: u16,
}

impl Linear16 {
    /// Wraps a binary16 bit pattern as a linear-light sample.
    pub fn from_bits(bits: u16) -> (sample: Linear16)
        ensures
            sample.bits == bits,
    {
        Linear16 { bits }
    }

    /// The sample's binary16 bit pattern.
    pub fn to_bits(self) -> (bits: u16)
        ensures
            bits == self.bits,
    {
        self.bits
    }
}

/// The sign bit of a binary16 bit pattern.
pub open spec fn half_sign(bits: u16) -> int {
    bits as int / 0x8000
}

/// The 5-bit exponent field of a binary16 bit pattern.
pub open spec fn half_exponent(bits: u16) -> int {
    (bits as int / 0x400) % 0x20
}

/// The 10-bit significand field of a binary16 bit pattern.
pub open spec fn half_significand(bits: u16) -> int {
    bits as int % 0x400
}

/// 255 times the magnitude of a finite binary16 value, scaled by 2^24 so
/// that it is an integer: a subnormal (exponent field 0) has magnitude
/// `significand * 2^-24`, a normal value `(1024 + significand) * 2^(e-25)`.
pub open spec fn scaled_magnitude(bits: u16) -> int {
    if half_exponent(bits) == 0 {
        255 * half_significand(bits)
    } else {
        255 * (1024 + half_significand(bits)) * pow2((half_exponent(bits) - 1) as nat)
    }
}

/// The byte a 16-bit linear-light sample converts to: the sample's value
/// times 255, truncated toward zero and narrowed to a byte the way the
/// language narrows a float — saturating at 0 and 255, a NaN giving 0.
/// Every negative sample (sign bit set) saturates to 0.
pub open spec fn linear16_byte(bits: u16) -> u8 {
    if half_sign(bits) == 1 {
        0
    } else if half_exponent(bits) == 31 {
        if half_significand(bits) == 0 {
            255  // positive infinity
        } else {
            0  // NaN
        }
    } else {
        let truncated = scaled_magnitude(bits) / 0x100_0000;
        if truncated > 255 {
            255
        } else {
            truncated as u8
        }
    }
}

/// Converts one linear-light sample to its gamma-domain byte.
fn linear16_to_byte(sample: Linear16) -> (byte: u8)
    ensures
        byte == linear16_byte(sample.bits),
{
    let bits = sample.bits;
    let sign: u16 = bits / 0x8000;
    let exponent: u16 = (bits / 0x400) % 0x20;
    let significand: u16 = bits % 0x400;
    if sign == 1 {
        0
    } else if exponent == 31 {
        if significand == 0 {
            255
        } else {
            0
        }
    } else if exponent == 0 {
        // A subnormal is below 1/255: 255 * significand < 2^24.
        0
    } else if exponent >= 25 {
        // The value is at least 1024, so its scaled magnitude divided by
        // 2^24 is far above 255.
        proof {
            lemma_linear16_byte_saturates(bits);
        }
        255
    } else {
        let numerator: u64 = 255u64 * (1024u64 + significand as u64);
        proof {
            lemma2_to64();
            if exponent < 24 {
                lemma_pow2_strictly_increases((exponent - 1) as nat, 23);
            }
            lemma_mul_inequality(numerator as int, 0x80000, pow2((exponent - 1) as nat) as int);
            lemma_u64_shl_is_mul(numerator, (exponent - 1) as u64);
        }
        let magnitude: u64 = numerator << ((exponent - 1) as u64);
        proof {
            lemma_u64_shr_is_div(magnitude, 24);
        }
        let truncated: u64 = magnitude >> 24u64;
        if truncated > 255 {
            255
        } else {
            truncated as u8
        }
    }
}

/// Law: the linear-to-byte conversion is monotonic over [0, 1]. Of two
/// samples between 0.0 and 1.0 — bit patterns at most [`LINEAR16_ONE`],
/// where bit-pattern order is value order — the larger sample converts to
/// the larger or equal byte. With `from_f16`'s contract this makes
/// `from_f16` monotonic in each channel over [0, 1].
pub proof fn lemma_linear16_byte_monotonic(lo: u16, hi: u16)
    requires
        lo <= hi,
        hi <= LINEAR16_ONE,
    ensures
        linear16_byte(lo) <= linear16_byte(hi),
{
    lemma2_to64();
    lemma_basic_div(lo as int, 0x8000);
    lemma_basic_div(hi as int, 0x8000);
    lemma_div_is_ordered(lo as int, hi as int, 0x400);
    lemma_div_is_ordered(hi as int, 0x3C00, 0x400);
    lemma_small_mod((lo as int / 0x400) as nat, 0x20);
    lemma_small_mod((hi as int / 0x400) as nat, 0x20);
    let e_lo = half_exponent(lo);
    let e_hi = half_exponent(hi);
    let m_lo = half_significand(lo);
    let m_hi = half_significand(hi);
    assert(e_lo == lo as int / 0x400 && e_hi == hi as int / 0x400 && e_lo <= e_hi <= 15);
    lemma_fundamental_div_mod(lo as int, 0x400);
    lemma_fundamental_div_mod(hi as int, 0x400);
    assert(scaled_magnitude(lo) <= scaled_magnitude(hi)) by {
        if e_lo == e_hi {
            if e_lo != 0 {
                lemma_pow2_pos((e_lo - 1) as nat);
                lemma_mul_inequality(
                    255 * (1024 + m_lo),
                    255 * (1024 + m_hi),
                    pow2((e_lo - 1) as nat) as int,
                );
            }
        } else {
            lemma_pow2_pos((e_hi - 1) as nat);
            let p_hi = pow2((e_hi - 1) as nat) as int;
            if e_lo == 0 {
                assert(255 * m_lo <= 255int * 1023);
                assert(255int * 1023 < 255 * (1024 + m_hi) * p_hi) by (nonlinear_arith)
                    requires
                        p_hi >= 1,
                        m_hi >= 0,
                ;
            } else {
                let p_lo = pow2((e_lo - 1) as nat) as int;
                lemma_pow2_pos((e_lo - 1) as nat);
                lemma_pow2_unfold(e_lo as nat);
                assert(pow2(e_lo as nat) == 2 * p_lo);
                if e_lo < e_hi - 1 {
                    lemma_pow2_strictly_increases(e_lo as nat, (e_hi - 1) as nat);
                }
                assert(p_hi >= 2 * p_lo);
                assert(255 * (1024 + m_lo) * p_lo <= 255 * (1024 + m_hi) * p_hi)
                    by (nonlinear_arith)
                    requires
                        p_lo >= 1,
                        p_hi >= 2 * p_lo,
                        0 <= m_lo <= 1023,
                        0 <= m_hi,
                ;
            }
        }
    };
    lemma_div_is_ordered(scaled_magnitude(lo), scaled_magnitude(hi), 0x100_0000);
}

/// A bit pattern whose exponent field is 25 or more (and which is not a
/// negative value, an infinity or a NaN) stands for a value of 1024 or
/// more, whose scaled-down magnitude saturates the byte range.
proof fn lemma_linear16_byte_saturates(bits: u16)
    requires
        half_sign(bits) == 0,
        25 <= half_exponent(bits) < 31,
    ensures
        scaled_magnitude(bits) / 0x100_0000 > 255,
{
    let e = half_exponent(bits);
    let m = half_significand(bits);
    lemma2_to64();
    if e - 1 > 24 {
        lemma_pow2_strictly_increases(24, (e - 1) as nat);
    }
    assert(255 * (1024 + m) * pow2((e - 1) as nat) >= 255 * 1024 * 0x100_0000)
        by (nonlinear_arith)
        requires
            m >= 0,
            pow2((e - 1) as nat) >= 0x100_0000,
    ;
    lemma_div_is_ordered(255int * 1024 * 0x100_0000, scaled_magnitude(bits), 0x100_0000);
    assert(255int * 1024 * 0x100_0000 / 0x100_0000 == 255 * 1024);
}

} // verus!

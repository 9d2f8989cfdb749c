//! Pixel and channel types: 8-bit RGBA texels, 16-bit UV/lighting/mask quads,
//! exact rational channel values, and quantization back to 8 bits.

use vstd::prelude::*;
use crate::math::{lemma_rdh_exact, rdh, rdh_u64};
use vstd::arithmetic::div_mod::{lemma_basic_div, lemma_div_pos_is_pos};

verus! {

/// One 8-bit RGBA pixel (texel, canvas cell, or frame-reference cell).
#[derive(Clone, Copy, PartialEq, Eq, Structural, Debug)]
pub struct Rgba8 {
    pub r: u8,
    pub g: u8,
    pub b: u8,
    pub a: u8,
}

/// A fully transparent black pixel, the initial canvas value.
pub open spec fn transparent() -> Rgba8 {
    Rgba8 { r: 0, g: 0, b: 0, a: 0 }
}

/// One 16-bit quad of a UV map: source coordinate `(u, v)`, baked lighting
/// intensity, and mask alpha, each normalized over 65535.
#[derive(Clone, Copy, PartialEq, Eq, Structural, Debug)]
pub struct Quad16 {
    pub u: u16,
    pub v: u16,
    pub light: u16,
    pub mask: u16,
}

/// An exact rational scalar `num / den`, used for normalized channel values
/// and normalized texture coordinates (which may fall outside `[0, 1]`).
#[derive(Clone, Copy, PartialEq, Eq, Structural, Debug)]
pub struct Ratio {
    pub num: i64,
    pub den: u32,
}

impl Ratio {
    /// A usable rational: positive denominator and a bounded numerator, so
    /// that every product this crate forms stays inside 64 bits.
    pub open spec fn wf(self) -> bool {
        1 <= self.den && -0x20000000000 <= self.num <= 0x20000000000
    }

    /// The value is exactly zero.
    pub open spec fn is_zero(self) -> bool {
        self.num == 0
    }

    /// The value is exactly one.
    pub open spec fn is_one(self) -> bool {
        self.num == self.den
    }
}

/// Normalizes an 8-bit pixel to exact rationals over 255, channel order
/// `(r, g, b, a)`: the minimum channel value maps to zero and the maximum to
/// one, exactly.
pub fn normalize_rgba_u8(pixel: &Rgba8) -> (r: (Ratio, Ratio, Ratio, Ratio))
    ensures
        r.0 == (Ratio { num: pixel.r as i64, den: 255 }),
        r.1 == (Ratio { num: pixel.g as i64, den: 255 }),
        r.2 == (Ratio { num: pixel.b as i64, den: 255 }),
        r.3 == (Ratio { num: pixel.a as i64, den: 255 }),
        r.0.wf() && r.1.wf() && r.2.wf() && r.3.wf(),
        pixel.r == 0 <==> r.0.is_zero(),
        pixel.r == 255 <==> r.0.is_one(),
        pixel.a == 0 <==> r.3.is_zero(),
        pixel.a == 255 <==> r.3.is_one(),
{
    (
        Ratio { num: pixel.r as i64, den: 255 },
        Ratio { num: pixel.g as i64, den: 255 },
        Ratio { num: pixel.b as i64, den: 255 },
        Ratio { num: pixel.a as i64, den: 255 },
    )
}

/// Normalizes a 16-bit UV quad to exact rationals over 65535, channel order
/// `(u, v, light, mask)`: the minimum channel value maps to zero and the
/// maximum to one, exactly.
pub fn normalize_rgba_u16(pixel: &Quad16) -> (r: (Ratio, Ratio, Ratio, Ratio))
    ensures
        r.0 == (Ratio { num: pixel.u as i64, den: 65535 }),
        r.1 == (Ratio { num: pixel.v as i64, den: 65535 }),
        r.2 == (Ratio { num: pixel.light as i64, den: 65535 }),
        r.3 == (Ratio { num: pixel.mask as i64, den: 65535 }),
        r.0.wf() && r.1.wf() && r.2.wf() && r.3.wf(),
        pixel.u == 0 <==> r.0.is_zero(),
        pixel.u == 65535 <==> r.0.is_one(),
        pixel.mask == 0 <==> r.3.is_zero(),
        pixel.mask == 65535 <==> r.3.is_one(),
{
    (
        Ratio { num: pixel.u as i64, den: 65535 },
        Ratio { num: pixel.v as i64, den: 65535 },
        Ratio { num: pixel.light as i64, den: 65535 },
        Ratio { num: pixel.mask as i64, den: 65535 },
    )
}

/// Quantization of the rational `num / den` to 8 bits: scale by 255, round to
/// the nearest integer (halves up), clamp into `[0, 255]`.
pub open spec fn to_u8_spec(num: int, den: int) -> int {
    if num <= 0 {
        0
    } else if rdh(255 * num, den) >= 255 {
        255
    } else {
        rdh(255 * num, den)
    }
}

/// Normalization followed by quantization is an exact round trip on every
/// 8-bit channel value, not only at the extremes: the rational `c / 255`
/// quantizes back to `c`.
pub proof fn lemma_normalize_quantize_roundtrip(c: int)
    requires
        0 <= c <= 255,
    ensures
        to_u8_spec(c, 255) == c,
{
    if c > 0 {
        lemma_rdh_exact(c, 255);
    }
}

/// The quantizer always lands in `[0, 255]`.
pub proof fn lemma_to_u8_bounds(num: int, den: int)
    requires
        den >= 1,
    ensures
        0 <= to_u8_spec(num, den) <= 255,
{
    if num > 0 && rdh(255 * num, den) < 255 {
        lemma_div_pos_is_pos(2 * (255 * num) + den, 2 * den);
    }
}

/// Executable quantizer for a non-negative rational on 64-bit operands.
pub fn quantize_u8(num: u64, den: u64) -> (r: u8)
    requires
        1 <= den < 0x4000000000000000,
        num < 0x40000000000000,
    ensures
        r == to_u8_spec(num as int, den as int),
{
    let n: u64 = 255 * num;
    let q: u64 = rdh_u64(n, den);
    proof {
        if num == 0 {
            lemma_basic_div(den as int, 2 * (den as int));
        }
    }
    if q >= 255 {
        255
    } else {
        q as u8
    }
}

/// Executable quantizer for an exact rational channel value.
pub fn to_u8_clamped(x: Ratio) -> (r: u8)
    requires
        x.wf(),
    ensures
        r == to_u8_spec(x.num as int, x.den as int),
{
    if x.num <= 0 {
        0
    } else {
        let n: u64 = 255 * (x.num as u64);
        let q: u64 = rdh_u64(n, x.den as u64);
        if q >= 255 {
            255
        } else {
            q as u8
        }
    }
}

} // verus!

//! The lighting and blend engine: per destination pixel it combines a sampled
//! texel, a baked lighting scalar (quarter-scale, restored with a fixed gain
//! of 2), and the mask alpha, compositing gamma-correctly into the canvas.
//!
//! Every normalized quantity is an exact rational: a texel channel `c` stands
//! for `c / 255`, a quad channel `q` for `q / 65535`, and the effective alpha
//! `sampled_alpha * mask_alpha` for a numerator over `255 * 65535 == 16711425`.

use vstd::prelude::*;
use crate::color::{quantize_u8, to_u8_spec, Quad16, Ratio, Rgba8};
use crate::gamma::{pow22, pow22_spec, powinv22, powinv22_spec, GAMMA_MAX};
use crate::math::{rdh, rdh_u64, lemma_rdh_bound, lemma_rdh_exact, lemma_rdh_ge};
use crate::raster::Image;
use crate::sampler::{sample_spec, sample_texture};

verus! {

/// The numerator of the effective alpha over 16711425: the sampled texel's
/// alpha times the mask alpha.
pub open spec fn effective_alpha(ta: int, ma: int) -> int {
    ta * ma
}

/// A lit channel on the fixed-point scale 1024: `channel * lighting * 2`,
/// rounded half-up from the exact rational `2 * l * light / 16711425`.
pub open spec fn lit_fx(l: int, light: int) -> int {
    rdh(2 * l * light * 1024, 16711425)
}

/// An 8-bit channel on the fixed-point scale 1024, rounded half-up.
pub open spec fn channel_fx(c: int) -> int {
    rdh(c * 1024, 255)
}

/// Linear interpolation of two linear-light values by the effective alpha
/// numerator `e` over 16711425, rounded half-up.
pub open spec fn mix_gamma(gb: int, gl: int, e: int) -> int {
    rdh(gb * (16711425 - e) + gl * e, 16711425)
}

/// The unbranched gamma-correct path: raise both values to 2.2, interpolate
/// linearly by the effective alpha, raise the result to 1/2.2.
pub open spec fn gamma_path_spec(v1: int, v2: int, e: int) -> int {
    powinv22_spec(mix_gamma(pow22_spec(v1), pow22_spec(v2), e))
}

/// Gamma-correct blend of two fixed-point values. At effective alpha zero
/// the existing value is returned unchanged, and at effective alpha one the
/// layer value, both exactly: the gamma path is entered only strictly
/// between the extremes, where its fixed-point rounding is harmless.
pub open spec fn alpha_blend_spec(v1: int, v2: int, e: int) -> int {
    if e == 0 {
        v1
    } else if e == 16711425 {
        v2
    } else {
        gamma_path_spec(v1, v2, e)
    }
}

/// The quantized fully opaque result: the lit channel itself, taken on the
/// exact rational `2 * l * light / 16711425` with no gamma round trip.
pub open spec fn opaque_channel(l: int, light: int) -> int {
    to_u8_spec(2 * l * light, 16711425)
}

/// One blended 8-bit color channel. With effective alpha zero the canvas
/// value `b` is kept exactly; with effective alpha one the result is exactly
/// the lit layer channel; otherwise the gamma-correct blend runs on the
/// fixed-point grid and quantizes back to 8 bits.
pub open spec fn blend_channel_spec(b: int, l: int, light: int, ta: int, ma: int) -> int {
    let e = effective_alpha(ta, ma);
    if e == 0 {
        b
    } else if e == 16711425 {
        opaque_channel(l, light)
    } else {
        to_u8_spec(alpha_blend_spec(channel_fx(b), lit_fx(l, light), e), 1024)
    }
}

/// The accumulated destination alpha: `canvas_alpha + effective_alpha`,
/// saturating at full opacity through the clamped quantizer.
pub open spec fn alpha_acc_spec(ba: int, ta: int, ma: int) -> int {
    to_u8_spec(ba * 65535 + ta * ma, 16711425)
}

/// At the alpha extremes the unbranched gamma path collapses: with effective
/// alpha zero it is the gamma round trip of the canvas value alone, and with
/// effective alpha one it is the gamma round trip of the lit layer value
/// alone — the other operand has no influence, bit for bit. On the
/// fixed-point grid that round trip can still sit one step below the operand
/// itself, so `alpha_blend_spec` branches at the extremes and returns the
/// operand exactly, skipping the round trip: the one point where the
/// fixed-point curve could perturb an exactly-known result.
pub proof fn lemma_alpha_blend_extremes(v1: int, v2: int)
    ensures
        gamma_path_spec(v1, v2, 0) == powinv22_spec(pow22_spec(v1)),
        gamma_path_spec(v1, v2, 16711425) == powinv22_spec(pow22_spec(v2)),
{
    let gb = pow22_spec(v1);
    let gl = pow22_spec(v2);
    lemma_rdh_exact(gb, 16711425);
    lemma_rdh_exact(gl, 16711425);
    assert(gb * (16711425 - 0) + gl * 0 == gb * 16711425) by (nonlinear_arith);
    assert(gb * (16711425 - 16711425) + gl * 16711425 == gl * 16711425) by (nonlinear_arith);
}

/// Gamma-correct blend of two fixed-point channel values (scale 1024, at most
/// 2048) by the effective alpha numerator over 16711425. Alpha zero returns
/// the existing value and alpha one the layer value, exactly and bit for bit
/// with the opaque shortcut; only in between does the gamma path run.
pub fn alpha_blend(val1: u32, val2: u32, alpha_num: u64) -> (r: u32)
    requires
        val1 <= 2048,
        val2 <= 2048,
        alpha_num <= 16711425,
    ensures
        r == alpha_blend_spec(val1 as int, val2 as int, alpha_num as int),
        r <= 2048,
        alpha_num == 0 ==> r == val1,
        alpha_num == 16711425 ==> r == val2,
{
    if alpha_num == 0 {
        return val1;
    }
    if alpha_num == 16711425 {
        return val2;
    }
    let gb: u64 = pow22(val1);
    let gl: u64 = pow22(val2);
    proof {
        assert(gb * (16711425 - alpha_num) <= 4817990 * 16711425 && gl * alpha_num <= 4817990
            * 16711425 && gb * (16711425 - alpha_num) + gl * alpha_num <= 4817990 * 16711425)
            by (nonlinear_arith)
            requires
                0 <= gb <= 4817990,
                0 <= gl <= 4817990,
                0 <= alpha_num <= 16711425,
        ;
    }
    let n: u64 = gb * (16711425 - alpha_num) + gl * alpha_num;
    let m: u64 = rdh_u64(n, 16711425);
    proof {
        lemma_rdh_bound(n as int, 16711425, GAMMA_MAX as int);
    }
    powinv22(m)
}

/// One blended color channel: canvas value `b`, sampled texel channel `l`
/// with sampled alpha `ta`, lighting scalar `light`, and mask alpha `ma`.
pub fn blend_channel(b: u8, l: u8, light: u16, ta: u8, ma: u16) -> (r: u8)
    ensures
        r == blend_channel_spec(b as int, l as int, light as int, ta as int, ma as int),
        ta as int * ma as int == 0 ==> r == b,
        ta == 255 && ma == 65535 ==> r == opaque_channel(l as int, light as int),
{
    proof {
        assert((ta as int) * (ma as int) <= 255 * 65535 && 0 <= (ta as int) * (ma as int))
            by (nonlinear_arith)
            requires
                0 <= ta <= 255,
                0 <= ma <= 65535,
        ;
    }
    let e: u64 = (ta as u64) * (ma as u64);
    if e == 0 {
        b
    } else if e == 16711425 {
        proof {
            assert(2 * (l as int) * (light as int) <= 2 * 255 * 65535) by (nonlinear_arith)
                requires
                    0 <= l <= 255,
                    0 <= light <= 65535,
            ;
        }
        let num: u64 = 2 * (l as u64) * (light as u64);
        quantize_u8(num, 16711425)
    } else {
        let bn: u64 = (b as u64) * 1024;
        let bf: u64 = rdh_u64(bn, 255);
        proof {
            lemma_rdh_bound(bn as int, 255, 1024);
            assert(2 * (l as int) * (light as int) * 1024 <= 2048 * 16711425) by (nonlinear_arith)
                requires
                    0 <= l <= 255,
                    0 <= light <= 65535,
            ;
            assert(0 <= 2 * (l as int) * (light as int) * 1024) by (nonlinear_arith)
                requires
                    0 <= l,
                    0 <= light,
            ;
        }
        let ln: u64 = 2 * (l as u64) * (light as u64) * 1024;
        let lf: u64 = rdh_u64(ln, 16711425);
        proof {
            lemma_rdh_bound(ln as int, 16711425, 2048);
        }
        let x: u32 = alpha_blend(bf as u32, lf as u32, e);
        quantize_u8(x as u64, 1024)
    }
}

/// The accumulated destination alpha never decreases and saturates at 255.
pub fn alpha_acc(ba: u8, ta: u8, ma: u16) -> (r: u8)
    ensures
        r == alpha_acc_spec(ba as int, ta as int, ma as int),
        r >= ba,
{
    proof {
        assert((ta as int) * (ma as int) <= 255 * 65535 && 0 <= (ta as int) * (ma as int))
            by (nonlinear_arith)
            requires
                0 <= ta <= 255,
                0 <= ma <= 65535,
        ;
    }
    let num: u64 = (ba as u64) * 65535 + (ta as u64) * (ma as u64);
    let r: u8 = quantize_u8(num, 16711425);
    proof {
        if ba > 0 {
            lemma_rdh_ge(255 * (num as int), 16711425, ba as int);
        }
    }
    r
}

/// One full canvas pixel blended under one layer quad: a zero mask alpha or a
/// fully transparent sampled texel leaves the pixel unchanged; otherwise each
/// color channel blends gamma-correctly and the alpha accumulates.
pub open spec fn blend_pixel_spec(cur: Rgba8, quad: Quad16, tex: Image) -> Rgba8 {
    if quad.mask == 0 {
        cur
    } else {
        let texel = sample_spec(tex, quad.u as int, 65535, quad.v as int, 65535);
        if texel.a == 0 {
            cur
        } else {
            Rgba8 {
                r: blend_channel_spec(
                    cur.r as int,
                    texel.r as int,
                    quad.light as int,
                    texel.a as int,
                    quad.mask as int,
                ) as u8,
                g: blend_channel_spec(
                    cur.g as int,
                    texel.g as int,
                    quad.light as int,
                    texel.a as int,
                    quad.mask as int,
                ) as u8,
                b: blend_channel_spec(
                    cur.b as int,
                    texel.b as int,
                    quad.light as int,
                    texel.a as int,
                    quad.mask as int,
                ) as u8,
                a: alpha_acc_spec(cur.a as int, texel.a as int, quad.mask as int) as u8,
            }
        }
    }
}

/// Blends one canvas pixel under one layer quad; the destination alpha is
/// monotonically non-decreasing.
pub fn blend_texel(cur: Rgba8, quad: Quad16, texture: &Image) -> (r: Rgba8)
    requires
        texture.wf(),
        1 <= texture.width,
        1 <= texture.height,
    ensures
        r == blend_pixel_spec(cur, quad, *texture),
        r.a >= cur.a,
{
    if quad.mask == 0 {
        cur
    } else {
        let texel: Rgba8 = sample_texture(
            texture,
            Ratio { num: quad.u as i64, den: 65535 },
            Ratio { num: quad.v as i64, den: 65535 },
        );
        if texel.a == 0 {
            cur
        } else {
            Rgba8 {
                r: blend_channel(cur.r, texel.r, quad.light, texel.a, quad.mask),
                g: blend_channel(cur.g, texel.g, quad.light, texel.a, quad.mask),
                b: blend_channel(cur.b, texel.b, quad.light, texel.a, quad.mask),
                a: alpha_acc(cur.a, texel.a, quad.mask),
            }
        }
    }
}

} // verus!

//! Nearest-neighbor texture sampling from normalized rational coordinates,
//! with edge clamping.

use vstd::prelude::*;
use crate::color::{Ratio, Rgba8};
use crate::math::rdh;
use crate::raster::Image;
use vstd::arithmetic::div_mod::{
    lemma_basic_div, lemma_div_by_multiple, lemma_div_is_ordered,
    lemma_div_multiples_vanish_quotient, lemma_div_pos_is_pos,
};
use vstd::arithmetic::mul::{lemma_mul_inequality, lemma_mul_is_commutative};

verus! {

/// The texel index resolved from the normalized coordinate `num / den` on an
/// axis of `dim` texels: `clamp(round(coord * dim - 0.5), 0, dim - 1)`, with
/// halves rounded away from zero. Over exact rationals that rounding
/// simplifies: for a positive coordinate it is `floor(coord * dim)` capped at
/// `dim - 1`, and any coordinate at or below zero clamps to index 0.
pub open spec fn nearest_index(num: int, den: int, dim: int) -> int {
    if num <= 0 {
        0
    } else if (num * dim) / den >= dim {
        dim - 1
    } else {
        (num * dim) / den
    }
}

/// The sample position rounded with the half-pixel offset and clamped into
/// the axis: `clamp(round(coord * dim - 1/2), 0, dim - 1)`, with `coord` the
/// exact rational `num / den` and the rounding half-up. Rounding halves away
/// from zero instead changes only negative half-integers, which clamp to
/// zero either way, so this is also the clamped round-to-nearest index.
pub open spec fn rounded_index(num: int, den: int, dim: int) -> int {
    let raw = rdh(2 * num * dim - den, 2 * den);
    if raw < 0 {
        0
    } else if raw >= dim {
        dim - 1
    } else {
        raw
    }
}

/// `nearest_index` computes exactly the rounded, clamped sample position of
/// `rounded_index`: over exact rationals, `round(coord * dim - 1/2)` agrees
/// with `floor(coord * dim)` wherever the clamp keeps the value.
pub proof fn lemma_nearest_index_is_round(num: int, den: int, dim: int)
    requires
        1 <= den,
        1 <= dim,
    ensures
        nearest_index(num, den, dim) == rounded_index(num, den, dim),
{
    let n4 = 4 * (num * dim);
    assert(2 * (2 * num * dim - den) + 2 * den == n4) by (nonlinear_arith)
        requires
            n4 == 4 * (num * dim),
    ;
    assert(rdh(2 * num * dim - den, 2 * den) == n4 / (4 * den));
    if num > 0 {
        assert(num * dim >= 1) by (nonlinear_arith)
            requires
                num >= 1,
                dim >= 1,
        ;
        lemma_div_multiples_vanish_quotient(4, num * dim, den);
        lemma_div_pos_is_pos(num * dim, den);
    } else {
        assert(num * dim <= 0) by (nonlinear_arith)
            requires
                num <= 0,
                dim >= 1,
        ;
        lemma_div_is_ordered(n4, 0, 4 * den);
        lemma_basic_div(0, 4 * den);
    }
}

/// The resolved index always lies in `[0, dim - 1]`, and coordinates outside
/// `[0, 1]` clamp to the boundary index rather than wrapping.
pub proof fn lemma_nearest_index_clamps(num: int, den: int, dim: int)
    requires
        1 <= den,
        1 <= dim,
    ensures
        0 <= nearest_index(num, den, dim) < dim,
        num <= 0 ==> nearest_index(num, den, dim) == 0,
        num >= den ==> nearest_index(num, den, dim) == dim - 1,
{
    if num > 0 {
        lemma_div_pos_is_pos(num * dim, den);
        assert(num * dim >= 0) by (nonlinear_arith)
            requires
                num >= 0,
                dim >= 0,
        ;
        if num >= den {
            lemma_mul_inequality(den, num, dim);
            lemma_div_is_ordered(den * dim, num * dim, den);
            lemma_mul_is_commutative(den, dim);
            lemma_div_by_multiple(dim, den);
        }
    }
}

/// Resolves one axis of a normalized coordinate to a texel index.
fn nearest_index_exec(num: i64, den: u32, dim: u32) -> (r: u32)
    requires
        1 <= den,
        1 <= dim <= 65535,
        num <= 0x40000000000,
    ensures
        r == nearest_index(num as int, den as int, dim as int),
        r < dim,
{
    if num <= 0 {
        0
    } else {
        proof {
            assert((num as int) * (dim as int) <= 0x40000000000 * 65535) by (nonlinear_arith)
                requires
                    0 < num <= 0x40000000000,
                    0 < dim <= 65535,
            ;
        }
        let t: u64 = (num as u64) * (dim as u64);
        let q: u64 = t / (den as u64);
        if q >= dim as u64 {
            dim - 1
        } else {
            q as u32
        }
    }
}

/// Clamped nearest-neighbor index pair for a normalized coordinate: for any
/// coordinates and positive dimensions the result lies in
/// `[0, width - 1] x [0, height - 1]`, and coordinates outside `[0, 1]` clamp
/// to the boundary index rather than wrapping.
pub fn interpolate_nearest(x: Ratio, y: Ratio, width: u32, height: u32) -> (r: (u32, u32))
    requires
        x.wf(),
        y.wf(),
        1 <= width <= 65535,
        1 <= height <= 65535,
    ensures
        r.0 == nearest_index(x.num as int, x.den as int, width as int),
        r.1 == nearest_index(y.num as int, y.den as int, height as int),
        r.0 < width,
        r.1 < height,
        x.num <= 0 ==> r.0 == 0,
        x.num >= x.den ==> r.0 == width - 1,
        y.num <= 0 ==> r.1 == 0,
        y.num >= y.den ==> r.1 == height - 1,
{
    proof {
        lemma_nearest_index_clamps(x.num as int, x.den as int, width as int);
        lemma_nearest_index_clamps(y.num as int, y.den as int, height as int);
    }
    (nearest_index_exec(x.num, x.den, width), nearest_index_exec(y.num, y.den, height))
}

/// The texel sampled at normalized coordinates `(u, v)`: `v` is flipped
/// (`1 - v`) to move the origin from the bottom left to the top left, then
/// both axes resolve through `nearest_index`.
pub open spec fn sample_spec(tex: Image, unum: int, uden: int, vnum: int, vden: int) -> Rgba8 {
    tex.pix(
        nearest_index(unum, uden, tex.width as int),
        nearest_index(vden - vnum, vden, tex.height as int),
    )
}

/// Samples the texture at normalized coordinates `(u, v)`; never reads out of
/// bounds, whatever the coordinates.
pub fn sample_texture(texture: &Image, u: Ratio, v: Ratio) -> (r: Rgba8)
    requires
        texture.wf(),
        1 <= texture.width,
        1 <= texture.height,
        u.wf(),
        v.wf(),
    ensures
        r == sample_spec(*texture, u.num as int, u.den as int, v.num as int, v.den as int),
{
    let flipped: i64 = (v.den as i64) - v.num;
    let ix: u32 = nearest_index_exec(u.num, u.den, texture.width);
    let iy: u32 = nearest_index_exec(flipped, v.den, texture.height);
    texture.get(ix, iy)
}

} // verus!

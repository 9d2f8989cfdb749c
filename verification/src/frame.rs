//! The frame compositor: affine-warps the finished render into a fixed-size
//! UI frame slot by destination-driven inverse sampling with bilinear
//! interpolation, then derives the final alpha as the minimum of the warped
//! render's alpha and the frame reference's own alpha mask.
//!
//! The transform `(scale, translate_x, translate_y)` is fixed-point with
//! denominator 16777216 (2^24): a stored value `s` stands for `s / 16777216`.
//! The inverse-mapped source coordinate of a destination pixel `x` is then
//! the exact rational `(x * 16777216 - translate_x) / scale`.

use vstd::prelude::*;
use crate::color::{transparent, Rgba8};
use crate::raster::Image;
use crate::math::{lemma_rdh_bound, rdh, rdh_u128};
use vstd::arithmetic::div_mod::{
    lemma_div_by_multiple, lemma_div_is_ordered, lemma_div_pos_is_pos,
    lemma_mod_division_less_than_divisor,
};
use vstd::arithmetic::mul::lemma_mul_inequality;

verus! {

/// The affine placement of a render inside a frame slot, fixed-point over
/// 16777216: a positive scale and a translation on each axis.
#[derive(Clone, Copy, PartialEq, Eq, Structural, Debug)]
pub struct FrameTransform {
    pub scale: i64,
    pub tx: i64,
    pub ty: i64,
}

impl FrameTransform {
    /// A usable placement: positive, bounded scale and bounded translations,
    /// so that every coordinate product stays inside 64 bits.
    pub open spec fn wf(self) -> bool {
        &&& 1 <= self.scale <= 0x100000000
        &&& -0x1000000000000 <= self.tx <= 0x1000000000000
        &&& -0x1000000000000 <= self.ty <= 0x1000000000000
    }
}

/// One bilinearly interpolated channel: the four corner texels weighted by
/// the fractional offsets `rx / d` and `ry / d`, rounded half-up.
pub open spec fn bilerp(
    c00: int,
    c10: int,
    c01: int,
    c11: int,
    rx: int,
    ry: int,
    d: int,
) -> int {
    rdh(
        c00 * ((d - rx) * (d - ry)) + c10 * (rx * (d - ry)) + c01 * ((d - rx) * ry) + c11 * (rx
            * ry),
        d * d,
    )
}

/// The warped sample at the exact rational source coordinate
/// `(nx / d, ny / d)`: transparent black when the coordinate falls outside
/// the source image, otherwise the bilinear interpolation of the four
/// surrounding texels (clamping the far texel at the last column and row).
pub open spec fn bilinear_spec(img: Image, nx: int, ny: int, d: int) -> Rgba8 {
    if nx < 0 || ny < 0 || nx > (img.width - 1) * d || ny > (img.height - 1) * d {
        transparent()
    } else {
        let x0 = nx / d;
        let rx = nx % d;
        let y0 = ny / d;
        let ry = ny % d;
        let x1 = if x0 + 1 < img.width { x0 + 1 } else { img.width - 1 };
        let y1 = if y0 + 1 < img.height { y0 + 1 } else { img.height - 1 };
        Rgba8 {
            r: bilerp(
                img.pix(x0, y0).r as int,
                img.pix(x1, y0).r as int,
                img.pix(x0, y1).r as int,
                img.pix(x1, y1).r as int,
                rx,
                ry,
                d,
            ) as u8,
            g: bilerp(
                img.pix(x0, y0).g as int,
                img.pix(x1, y0).g as int,
                img.pix(x0, y1).g as int,
                img.pix(x1, y1).g as int,
                rx,
                ry,
                d,
            ) as u8,
            b: bilerp(
                img.pix(x0, y0).b as int,
                img.pix(x1, y0).b as int,
                img.pix(x0, y1).b as int,
                img.pix(x1, y1).b as int,
                rx,
                ry,
                d,
            ) as u8,
            a: bilerp(
                img.pix(x0, y0).a as int,
                img.pix(x1, y0).a as int,
                img.pix(x0, y1).a as int,
                img.pix(x1, y1).a as int,
                rx,
                ry,
                d,
            ) as u8,
        }
    }
}

/// The warped render pixel under a destination pixel `(x, y)` of the frame:
/// the inverse-mapped source coordinate is
/// `((x - translate_x) / scale, (y - translate_y) / scale)`.
pub open spec fn chara_pixel_spec(render: Image, t: FrameTransform, x: int, y: int) -> Rgba8 {
    bilinear_spec(render, x * 16777216 - t.tx, y * 16777216 - t.ty, t.scale as int)
}

/// A warped pixel masked by the frame reference: colors pass through, and
/// the final alpha is the minimum of the warped alpha and the reference
/// alpha — the mask can only shrink the visible area, never extend it.
pub open spec fn mask_pixel_spec(cur: Rgba8, refp: Rgba8) -> Rgba8 {
    Rgba8 {
        r: cur.r,
        g: cur.g,
        b: cur.b,
        a: if cur.a <= refp.a {
            cur.a
        } else {
            refp.a
        },
    }
}

/// One bilinearly interpolated channel, executable.
fn bilerp_channel(c00: u8, c10: u8, c01: u8, c11: u8, rx: u64, ry: u64, d: u64) -> (r: u8)
    requires
        1 <= d <= 0x100000000,
        rx < d,
        ry < d,
    ensures
        r == bilerp(c00 as int, c10 as int, c01 as int, c11 as int, rx as int, ry as int, d as int),
{
    let wx0: u64 = d - rx;
    let wy0: u64 = d - ry;
    proof {
        assert((wx0 as int) * (wy0 as int) <= 0x100000000 * 0x100000000 && (rx as int) * (
        wy0 as int) <= 0x100000000 * 0x100000000 && (wx0 as int) * (ry as int) <= 0x100000000
            * 0x100000000 && (rx as int) * (ry as int) <= 0x100000000 * 0x100000000 && (d as int) * (
        d as int) <= 0x100000000 * 0x100000000) by (nonlinear_arith)
            requires
                0 <= wx0 <= 0x100000000,
                0 <= wy0 <= 0x100000000,
                0 <= rx <= 0x100000000,
                0 <= ry <= 0x100000000,
                0 <= d <= 0x100000000,
        ;
    }
    let w00: u128 = (wx0 as u128) * (wy0 as u128);
    let w10: u128 = (rx as u128) * (wy0 as u128);
    let w01: u128 = (wx0 as u128) * (ry as u128);
    let w11: u128 = (rx as u128) * (ry as u128);
    let dd: u128 = (d as u128) * (d as u128);
    proof {
        assert(w00 + w10 + w01 + w11 == dd && w00 <= dd && w10 <= dd && w01 <= dd && w11 <= dd
            && 1 <= dd && dd <= 0x100000000 * 0x100000000) by (nonlinear_arith)
            requires
                1 <= d <= 0x100000000,
                0 <= rx < d,
                0 <= ry < d,
                wx0 == d - rx,
                wy0 == d - ry,
                w00 == wx0 * wy0,
                w10 == rx * wy0,
                w01 == wx0 * ry,
                w11 == rx * ry,
                dd == d * d,
        ;
        lemma_mul_inequality(c00 as int, 255, w00 as int);
        lemma_mul_inequality(c10 as int, 255, w10 as int);
        lemma_mul_inequality(c01 as int, 255, w01 as int);
        lemma_mul_inequality(c11 as int, 255, w11 as int);
    }
    let num: u128 = (c00 as u128) * w00 + (c10 as u128) * w10 + (c01 as u128) * w01 + (c11
        as u128) * w11;
    let q: u128 = rdh_u128(num, dd);
    proof {
        lemma_rdh_bound(num as int, dd as int, 255);
    }
    q as u8
}

/// Warps one destination pixel of the frame: inverse-maps it into the render
/// and samples bilinearly, transparent black when it lands outside.
fn warp_pixel(render: &Image, t: FrameTransform, x: u32, y: u32) -> (r: Rgba8)
    requires
        render.wf(),
        1 <= render.width,
        1 <= render.height,
        t.wf(),
        x <= 65535,
        y <= 65535,
    ensures
        r == chara_pixel_spec(*render, t, x as int, y as int),
{
    let nx: i64 = (x as i64) * 16777216 - t.tx;
    let ny: i64 = (y as i64) * 16777216 - t.ty;
    let d: i64 = t.scale;
    proof {
        assert(((render.width - 1) as int) * (d as int) <= 65535 * 0x100000000 && 0 <= ((
        render.width - 1) as int) * (d as int) && ((render.height - 1) as int) * (d as int) <= 65535
            * 0x100000000 && 0 <= ((render.height - 1) as int) * (d as int)) by (nonlinear_arith)
            requires
                1 <= d <= 0x100000000,
                0 <= render.width - 1 <= 65535,
                0 <= render.height - 1 <= 65535,
        ;
    }
    let bx: i64 = ((render.width - 1) as i64) * d;
    let by: i64 = ((render.height - 1) as i64) * d;
    let outside: bool = nx < 0 || ny < 0 || nx > bx || ny > by;
    if outside {
        Rgba8 { r: 0, g: 0, b: 0, a: 0 }
    } else {
        let nxu: u64 = nx as u64;
        let nyu: u64 = ny as u64;
        let du: u64 = d as u64;
        let x0: u64 = nxu / du;
        let rx: u64 = nxu % du;
        let y0: u64 = nyu / du;
        let ry: u64 = nyu % du;
        proof {
            lemma_div_pos_is_pos(nxu as int, du as int);
            lemma_div_pos_is_pos(nyu as int, du as int);
            lemma_div_is_ordered(nxu as int, bx as int, du as int);
            lemma_div_by_multiple((render.width - 1) as int, du as int);
            lemma_div_is_ordered(nyu as int, by as int, du as int);
            lemma_div_by_multiple((render.height - 1) as int, du as int);
            lemma_mod_division_less_than_divisor(nxu as int, du as int);
            lemma_mod_division_less_than_divisor(nyu as int, du as int);
        }
        let x0s: u32 = x0 as u32;
        let y0s: u32 = y0 as u32;
        let x1s: u32 = if x0s + 1 < render.width {
            x0s + 1
        } else {
            render.width - 1
        };
        let y1s: u32 = if y0s + 1 < render.height {
            y0s + 1
        } else {
            render.height - 1
        };
        let p00: Rgba8 = render.get(x0s, y0s);
        let p10: Rgba8 = render.get(x1s, y0s);
        let p01: Rgba8 = render.get(x0s, y1s);
        let p11: Rgba8 = render.get(x1s, y1s);
        Rgba8 {
            r: bilerp_channel(p00.r, p10.r, p01.r, p11.r, rx, ry, du),
            g: bilerp_channel(p00.g, p10.g, p01.g, p11.g, rx, ry, du),
            b: bilerp_channel(p00.b, p10.b, p01.b, p11.b, rx, ry, du),
            a: bilerp_channel(p00.a, p10.a, p01.a, p11.a, rx, ry, du),
        }
    }
}

/// Masks the current image's alpha with the reference image's alpha, pixel
/// by pixel: the output alpha is the minimum of the two, so a reference mask
/// of 200 against a warped alpha of 255 yields 200, and a warped alpha of
/// 100 against a reference of 255 yields 100. Colors are untouched.
pub fn blend_alpha(current: &mut Image, reference: &Image)
    requires
        old(current).wf(),
        reference.wf(),
        reference.width == old(current).width,
        reference.height == old(current).height,
    ensures
        final(current).wf(),
        final(current).width == old(current).width,
        final(current).height == old(current).height,
        forall|px: int, py: int|
            0 <= px < old(current).width && 0 <= py < old(current).height ==> final(current).pix(
                px,
                py,
            ) == mask_pixel_spec(old(current).pix(px, py), reference.pix(px, py)),
{
    let width: u32 = current.width;
    let height: u32 = current.height;
    let mut x: u32 = 0;
    while x < width
        invariant
            current.wf(),
            current.width == old(current).width,
            current.height == old(current).height,
            width == current.width,
            height == current.height,
            reference.wf(),
            reference.width == width,
            reference.height == height,
            x <= width,
            forall|px: int, py: int|
                0 <= px < x && 0 <= py < height ==> current.pix(px, py) == mask_pixel_spec(
                    old(current).pix(px, py),
                    reference.pix(px, py),
                ),
            forall|px: int, py: int|
                x <= px < width && 0 <= py < height ==> current.pix(px, py) == old(current).pix(
                    px,
                    py,
                ),
        decreases width - x,
    {
        let mut y: u32 = 0;
        while y < height
            invariant
                current.wf(),
                current.width == old(current).width,
                current.height == old(current).height,
                width == current.width,
                height == current.height,
                reference.wf(),
                reference.width == width,
                reference.height == height,
                x < width,
                y <= height,
                forall|px: int, py: int|
                    0 <= px < x && 0 <= py < height ==> current.pix(px, py) == mask_pixel_spec(
                        old(current).pix(px, py),
                        reference.pix(px, py),
                    ),
                forall|py: int|
                    0 <= py < y ==> current.pix(x as int, py) == mask_pixel_spec(
                        old(current).pix(x as int, py),
                        reference.pix(x as int, py),
                    ),
                forall|py: int|
                    y <= py < height ==> current.pix(x as int, py) == old(current).pix(x as int, py),
                forall|px: int, py: int|
                    x < px < width && 0 <= py < height ==> current.pix(px, py) == old(current).pix(
                        px,
                        py,
                    ),
            decreases height - y,
        {
            let cur: Rgba8 = current.get(x, y);
            let target: Rgba8 = reference.get(x, y);
            let a: u8 = if cur.a <= target.a {
                cur.a
            } else {
                target.a
            };
            current.set(x, y, Rgba8 { r: cur.r, g: cur.g, b: cur.b, a });
            y = y + 1;
        }
        x = x + 1;
    }
}

/// Builds the frame image: the render is affine-warped into an output sized
/// by the frame reference, and the reference's alpha channel masks the
/// result by the minimum rule.
pub fn create_chara_image(
    render: &Image,
    chara_reference: &Image,
    transform: FrameTransform,
) -> (r: Image)
    requires
        render.wf(),
        1 <= render.width,
        1 <= render.height,
        chara_reference.wf(),
        transform.wf(),
    ensures
        r.wf(),
        r.width == chara_reference.width,
        r.height == chara_reference.height,
        forall|px: int, py: int|
            0 <= px < chara_reference.width && 0 <= py < chara_reference.height ==> r.pix(px, py)
                == mask_pixel_spec(
                chara_pixel_spec(*render, transform, px, py),
                chara_reference.pix(px, py),
            ),
{
    let width: u32 = chara_reference.width;
    let height: u32 = chara_reference.height;
    let mut output: Image = Image::new_canvas(width, height);
    let mut x: u32 = 0;
    while x < width
        invariant
            render.wf(),
            1 <= render.width,
            1 <= render.height,
            transform.wf(),
            width <= 65535,
            height <= 65535,
            output.wf(),
            output.width == width,
            output.height == height,
            x <= width,
            forall|px: int, py: int|
                0 <= px < x && 0 <= py < height ==> output.pix(px, py) == chara_pixel_spec(
                    *render,
                    transform,
                    px,
                    py,
                ),
        decreases width - x,
    {
        let mut y: u32 = 0;
        while y < height
            invariant
                render.wf(),
                1 <= render.width,
                1 <= render.height,
                transform.wf(),
                width <= 65535,
                height <= 65535,
                output.wf(),
                output.width == width,
                output.height == height,
                x < width,
                y <= height,
                forall|px: int, py: int|
                    0 <= px < x && 0 <= py < height ==> output.pix(px, py) == chara_pixel_spec(
                        *render,
                        transform,
                        px,
                        py,
                    ),
                forall|py: int|
                    0 <= py < y ==> output.pix(x as int, py) == chara_pixel_spec(
                        *render,
                        transform,
                        x as int,
                        py,
                    ),
            decreases height - y,
        {
            let warped: Rgba8 = warp_pixel(render, transform, x, y);
            output.set(x, y, warped);
            y = y + 1;
        }
        x = x + 1;
    }
    blend_alpha(&mut output, chara_reference);
    output
}

} // verus!

//! One body-part layer pass: the transparency pre-scan over a source-texture
//! sub-rectangle, the full-canvas blend of one UV map, and the proof that a
//! pass over a structurally absent overlay changes nothing.

use vstd::prelude::*;
use crate::blend::{alpha_acc_spec, blend_pixel_spec, blend_texel};
use crate::color::{lemma_to_u8_bounds, Quad16, Rgba8};
use crate::math::lemma_rdh_ge;
use crate::raster::{Image, UvMap};
use crate::sampler::{nearest_index, sample_spec};
use vstd::arithmetic::div_mod::{lemma_div_is_ordered, lemma_div_multiples_vanish};
use vstd::arithmetic::mul::{lemma_mul_inequality, lemma_mul_nonnegative};

verus! {

/// A sub-rectangle of the source texture, each edge given in sixteenths of
/// the texture's dimensions. Every region the pipeline scans is a multiple of
/// one sixteenth of the texture on each axis.
#[derive(Clone, Copy, PartialEq, Eq, Structural, Debug)]
pub struct Region {
    pub x0: u8,
    pub x1: u8,
    pub y0: u8,
    pub y1: u8,
}

impl Region {
    /// Edges are ordered and within the texture.
    pub open spec fn wf(self) -> bool {
        self.x0 <= self.x1 <= 16 && self.y0 <= self.y1 <= 16
    }
}

/// A region edge in sixteenths resolved to a pixel bound on an axis of `dim`
/// pixels, rounding down.
pub open spec fn edge_px(frac: int, dim: int) -> int {
    frac * dim / 16
}

/// Some texel inside the region has a non-zero alpha.
pub open spec fn region_has_pixel(tex: Image, reg: Region) -> bool {
    exists|x: int, y: int|
        edge_px(reg.x0 as int, tex.width as int) <= x < edge_px(reg.x1 as int, tex.width as int)
            && edge_px(reg.y0 as int, tex.height as int) <= y < edge_px(
            reg.y1 as int,
            tex.height as int,
        ) && tex.pix(x, y).a > 0
}

/// A resolved region edge never passes the end of the axis.
proof fn lemma_edge_px_in_axis(frac: int, dim: int)
    requires
        0 <= frac <= 16,
        0 <= dim,
    ensures
        0 <= edge_px(frac, dim) <= dim,
{
    lemma_mul_nonnegative(frac, dim);
    lemma_mul_inequality(frac, 16, dim);
    lemma_div_is_ordered(frac * dim, 16 * dim, 16);
    lemma_div_multiples_vanish(dim, 16);
    vstd::arithmetic::div_mod::lemma_div_pos_is_pos(frac * dim, 16);
}

/// Scans the given sub-rectangle of the texture for any texel with non-zero
/// alpha; used to skip whole overlay passes for structurally absent overlays.
pub fn has_pixel_in_region(image: &Image, region: Region) -> (r: bool)
    requires
        image.wf(),
        region.wf(),
    ensures
        r == region_has_pixel(*image, region),
{
    proof {
        lemma_edge_px_in_axis(region.x0 as int, image.width as int);
        lemma_edge_px_in_axis(region.x1 as int, image.width as int);
        lemma_edge_px_in_axis(region.y0 as int, image.height as int);
        lemma_edge_px_in_axis(region.y1 as int, image.height as int);
    }
    let xs: u32 = (region.x0 as u32) * image.width / 16;
    let xe: u32 = (region.x1 as u32) * image.width / 16;
    let ys: u32 = (region.y0 as u32) * image.height / 16;
    let ye: u32 = (region.y1 as u32) * image.height / 16;
    proof {
        lemma_mul_inequality(region.x0 as int, region.x1 as int, image.width as int);
        lemma_div_is_ordered(
            region.x0 as int * image.width as int,
            region.x1 as int * image.width as int,
            16,
        );
        lemma_mul_inequality(region.y0 as int, region.y1 as int, image.height as int);
        lemma_div_is_ordered(
            region.y0 as int * image.height as int,
            region.y1 as int * image.height as int,
            16,
        );
    }
    let mut x: u32 = xs;
    while x < xe
        invariant
            image.wf(),
            region.wf(),
            xs <= x <= xe,
            xs == edge_px(region.x0 as int, image.width as int),
            xe == edge_px(region.x1 as int, image.width as int),
            ys == edge_px(region.y0 as int, image.height as int),
            ye == edge_px(region.y1 as int, image.height as int),
            xe <= image.width,
            ye <= image.height,
            ys <= ye,
            forall|px: int, py: int|
                xs <= px < x && ys <= py < ye ==> image.pix(px, py).a == 0,
        decreases xe - x,
    {
        let mut y: u32 = ys;
        while y < ye
            invariant
                image.wf(),
                region.wf(),
                xs <= x < xe,
                ys <= y <= ye,
                xs == edge_px(region.x0 as int, image.width as int),
                xe == edge_px(region.x1 as int, image.width as int),
                ys == edge_px(region.y0 as int, image.height as int),
                ye == edge_px(region.y1 as int, image.height as int),
                xe <= image.width,
                ye <= image.height,
                forall|px: int, py: int|
                    xs <= px < x && ys <= py < ye ==> image.pix(px, py).a == 0,
                forall|py: int| ys <= py < y ==> image.pix(x as int, py).a == 0,
            decreases ye - y,
        {
            if image.get(x, y).a > 0 {
                proof {
                    assert(region_has_pixel(*image, region)) by {
                        assert(xs <= x as int && (x as int) < xe as int && ys <= y as int && (
                        y as int) < ye as int && image.pix(x as int, y as int).a > 0);
                    }
                }
                return true;
            }
            y = y + 1;
        }
        x = x + 1;
    }
    false
}

/// Blends one body-part layer over the whole canvas, pixel by pixel. Every
/// canvas pixel becomes its blend under the layer's quad at that position,
/// and the canvas alpha never decreases anywhere.
pub fn blend_layer_with_base(base: &mut Image, layer_uvs_lighting: &UvMap, texture: &Image)
    requires
        old(base).wf(),
        layer_uvs_lighting.wf(),
        texture.wf(),
        1 <= texture.width,
        1 <= texture.height,
        layer_uvs_lighting.width == old(base).width,
        layer_uvs_lighting.height == old(base).height,
    ensures
        final(base).wf(),
        final(base).width == old(base).width,
        final(base).height == old(base).height,
        forall|px: int, py: int|
            0 <= px < old(base).width && 0 <= py < old(base).height ==> final(base).pix(px, py)
                == blend_pixel_spec(
                old(base).pix(px, py),
                layer_uvs_lighting.quad(px, py),
                *texture,
            ),
        forall|px: int, py: int|
            0 <= px < old(base).width && 0 <= py < old(base).height ==> final(base).pix(
                px,
                py,
            ).a >= old(base).pix(px, py).a,
{
    let width: u32 = base.width;
    let height: u32 = base.height;
    let mut x: u32 = 0;
    while x < width
        invariant
            base.wf(),
            base.width == old(base).width,
            base.height == old(base).height,
            width == base.width,
            height == base.height,
            layer_uvs_lighting.wf(),
            texture.wf(),
            1 <= texture.width,
            1 <= texture.height,
            layer_uvs_lighting.width == base.width,
            layer_uvs_lighting.height == base.height,
            x <= width,
            forall|px: int, py: int|
                0 <= px < x && 0 <= py < height ==> base.pix(px, py) == blend_pixel_spec(
                    old(base).pix(px, py),
                    layer_uvs_lighting.quad(px, py),
                    *texture,
                ),
            forall|px: int, py: int|
                x <= px < width && 0 <= py < height ==> base.pix(px, py) == old(base).pix(px, py),
        decreases width - x,
    {
        let mut y: u32 = 0;
        while y < height
            invariant
                base.wf(),
                base.width == old(base).width,
                base.height == old(base).height,
                width == base.width,
                height == base.height,
                layer_uvs_lighting.wf(),
                texture.wf(),
                1 <= texture.width,
                1 <= texture.height,
                layer_uvs_lighting.width == base.width,
                layer_uvs_lighting.height == base.height,
                x < width,
                y <= height,
                forall|px: int, py: int|
                    0 <= px < x && 0 <= py < height ==> base.pix(px, py) == blend_pixel_spec(
                        old(base).pix(px, py),
                        layer_uvs_lighting.quad(px, py),
                        *texture,
                    ),
                forall|py: int|
                    0 <= py < y ==> base.pix(x as int, py) == blend_pixel_spec(
                        old(base).pix(x as int, py),
                        layer_uvs_lighting.quad(x as int, py),
                        *texture,
                    ),
                forall|py: int|
                    y <= py < height ==> base.pix(x as int, py) == old(base).pix(x as int, py),
                forall|px: int, py: int|
                    x < px < width && 0 <= py < height ==> base.pix(px, py) == old(base).pix(
                        px,
                        py,
                    ),
            decreases height - y,
        {
            let quad: Quad16 = layer_uvs_lighting.get(x, y);
            let cur: Rgba8 = base.get(x, y);
            let blended: Rgba8 = blend_texel(cur, quad, texture);
            base.set(x, y, blended);
            y = y + 1;
        }
        x = x + 1;
    }
    proof {
        assert forall|px: int, py: int|
            0 <= px < old(base).width && 0 <= py < old(base).height implies final(base).pix(
            px,
            py,
        ).a >= old(base).pix(px, py).a by {
            lemma_blend_pixel_alpha(
                old(base).pix(px, py),
                layer_uvs_lighting.quad(px, py),
                *texture,
            );
        }
    }
}

/// The accumulated alpha is between the old canvas alpha and full opacity.
pub proof fn lemma_alpha_acc_bounds(ba: int, ta: int, ma: int)
    requires
        0 <= ba <= 255,
        0 <= ta <= 255,
        0 <= ma <= 65535,
    ensures
        ba <= alpha_acc_spec(ba, ta, ma) <= 255,
{
    lemma_mul_nonnegative(ta, ma);
    lemma_to_u8_bounds(ba * 65535 + ta * ma, 16711425);
    if ba > 0 {
        lemma_rdh_ge(255 * (ba * 65535 + ta * ma), 16711425, ba);
    }
}

/// Blending one quad never lowers a pixel's alpha.
pub proof fn lemma_blend_pixel_alpha(cur: Rgba8, quad: Quad16, tex: Image)
    ensures
        blend_pixel_spec(cur, quad, tex).a >= cur.a,
{
    if quad.mask != 0 {
        let texel = sample_spec(tex, quad.u as int, 65535, quad.v as int, 65535);
        if texel.a != 0 {
            lemma_alpha_acc_bounds(cur.a as int, texel.a as int, quad.mask as int);
        }
    }
}

/// Every quad of the layer with a live mask samples inside the given region:
/// the structural property of an overlay's UV map that makes the pre-scan
/// shortcut sound.
pub open spec fn layer_confined(uvs: UvMap, tex: Image, reg: Region) -> bool {
    forall|x: int, y: int|
        0 <= x < uvs.width && 0 <= y < uvs.height && (#[trigger] uvs.quad(x, y)).mask != 0
            ==> {
            let q = uvs.quad(x, y);
            let sx = nearest_index(q.u as int, 65535, tex.width as int);
            let sy = nearest_index(65535 - q.v as int, 65535, tex.height as int);
            edge_px(reg.x0 as int, tex.width as int) <= sx < edge_px(
                reg.x1 as int,
                tex.width as int,
            ) && edge_px(reg.y0 as int, tex.height as int) <= sy < edge_px(
                reg.y1 as int,
                tex.height as int,
            )
        }
}

/// If a confined layer's region holds no visible texel, blending a quad of
/// that layer leaves the canvas pixel exactly as it was.
pub proof fn lemma_blend_pixel_culled(cur: Rgba8, quad: Quad16, tex: Image, reg: Region, sx: int, sy: int)
    requires
        !region_has_pixel(tex, reg),
        sx == nearest_index(quad.u as int, 65535, tex.width as int),
        sy == nearest_index(65535 - quad.v as int, 65535, tex.height as int),
        quad.mask != 0 ==> edge_px(reg.x0 as int, tex.width as int) <= sx < edge_px(
            reg.x1 as int,
            tex.width as int,
        ) && edge_px(reg.y0 as int, tex.height as int) <= sy < edge_px(
            reg.y1 as int,
            tex.height as int,
        ),
    ensures
        blend_pixel_spec(cur, quad, tex) == cur,
{
    if quad.mask != 0 {
        let texel = sample_spec(tex, quad.u as int, 65535, quad.v as int, 65535);
        if texel.a > 0 {
            assert(tex.pix(sx, sy).a > 0);
            assert(region_has_pixel(tex, reg));
        }
    }
}

} // verus!

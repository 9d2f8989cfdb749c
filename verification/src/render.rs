//! The layer pipeline: one full render composites the body-part layers in a
//! fixed back-to-front order. An optional overlay layer carries a pre-scan
//! region; the pass is skipped when that source sub-rectangle is fully
//! transparent, and the skip provably never changes the output.

use vstd::prelude::*;
use crate::blend::blend_pixel_spec;
use crate::color::{transparent, Rgba8};
use crate::layer::{
    blend_layer_with_base, has_pixel_in_region, layer_confined, lemma_blend_pixel_culled,
    region_has_pixel, Region,
};
use crate::raster::{lemma_grid_flatten, Image, UvMap};
use crate::sampler::nearest_index;

verus! {

/// One layer of a render: a UV map, and for optional detail overlays the
/// source-texture region whose transparency decides whether the pass runs.
pub struct RenderLayer {
    pub uvs: UvMap,
    pub cull: Option<Region>,
}

impl RenderLayer {
    /// The layer participates in the render: always, for a base layer;
    /// for an overlay, exactly when its pre-scan region holds a visible texel.
    pub open spec fn applies(self, tex: Image) -> bool {
        match self.cull {
            Option::None => true,
            Option::Some(reg) => region_has_pixel(tex, reg),
        }
    }
}

/// A whole canvas (as a pixel sequence) after one layer pass: every pixel is
/// blended under the quad at its own position.
pub open spec fn blended_canvas(canvas: Seq<Rgba8>, uvs: UvMap, tex: Image) -> Seq<Rgba8> {
    Seq::new(canvas.len(), |i: int| blend_pixel_spec(canvas[i], uvs.data[i], tex))
}

/// The canvas after the first `n` layers, with the pre-scan shortcut: a
/// culled overlay whose region is fully transparent is skipped.
pub open spec fn render_spec(tex: Image, layers: Seq<RenderLayer>, w: nat, h: nat, n: int) -> Seq<
    Rgba8,
>
    decreases n,
{
    if n <= 0 {
        Seq::new(w * h, |i: int| transparent())
    } else {
        let prev = render_spec(tex, layers, w, h, n - 1);
        if layers[n - 1].applies(tex) {
            blended_canvas(prev, layers[n - 1].uvs, tex)
        } else {
            prev
        }
    }
}

/// The canvas after the first `n` layers with the pre-scan shortcut disabled:
/// every layer pass runs unconditionally.
pub open spec fn render_all_spec(
    tex: Image,
    layers: Seq<RenderLayer>,
    w: nat,
    h: nat,
    n: int,
) -> Seq<Rgba8>
    decreases n,
{
    if n <= 0 {
        Seq::new(w * h, |i: int| transparent())
    } else {
        blended_canvas(render_all_spec(tex, layers, w, h, n - 1), layers[n - 1].uvs, tex)
    }
}

/// Both render folds keep the canvas at its full size.
pub proof fn lemma_render_len(tex: Image, layers: Seq<RenderLayer>, w: nat, h: nat, n: int)
    ensures
        render_spec(tex, layers, w, h, n).len() == w * h,
        render_all_spec(tex, layers, w, h, n).len() == w * h,
    decreases n,
{
    if n > 0 {
        lemma_render_len(tex, layers, w, h, n - 1);
    }
}

/// The canvas alpha is monotonically non-decreasing as layers accumulate:
/// each further layer pass can only raise a pixel's alpha, which saturates
/// at full opacity inside the accumulator itself.
pub proof fn lemma_render_alpha_monotone(
    tex: Image,
    layers: Seq<RenderLayer>,
    w: nat,
    h: nat,
    n: int,
)
    requires
        n >= 1,
    ensures
        forall|j: int|
            0 <= j < w * h ==> render_spec(tex, layers, w, h, n)[j].a >= render_spec(
                tex,
                layers,
                w,
                h,
                n - 1,
            )[j].a,
{
    lemma_render_len(tex, layers, w, h, n - 1);
    let prev = render_spec(tex, layers, w, h, n - 1);
    if layers[n - 1].applies(tex) {
        assert forall|j: int| 0 <= j < w * h implies render_spec(tex, layers, w, h, n)[j].a
            >= prev[j].a by {
            crate::layer::lemma_blend_pixel_alpha(prev[j], layers[n - 1].uvs.data[j], tex);
        }
    }
}

/// Occlusion-culling transparency: for any input texture, rendering with the
/// pre-scan shortcut produces pixel-identical output to rendering with the
/// shortcut disabled, provided each overlay's UV map samples only inside its
/// declared region wherever its mask is live.
pub proof fn lemma_culling_transparent(
    tex: Image,
    layers: Seq<RenderLayer>,
    w: nat,
    h: nat,
    n: int,
)
    requires
        forall|i: int|
            0 <= i < n ==> (#[trigger] layers[i]).uvs.width == w && layers[i].uvs.height == h
                && match layers[i].cull {
                Option::None => true,
                Option::Some(reg) => layer_confined(layers[i].uvs, tex, reg),
            },
    ensures
        render_spec(tex, layers, w, h, n) == render_all_spec(tex, layers, w, h, n),
    decreases n,
{
    if n > 0 {
        lemma_culling_transparent(tex, layers, w, h, n - 1);
        let prev = render_all_spec(tex, layers, w, h, n - 1);
        lemma_render_len(tex, layers, w, h, n - 1);
        let lay = layers[n - 1];
        if !lay.applies(tex) {
            let reg = lay.cull.unwrap();
            assert forall|j: int| 0 <= j < prev.len() implies blended_canvas(
                prev,
                lay.uvs,
                tex,
            )[j] == prev[j] by {
                let q = lay.uvs.data[j];
                let sx = nearest_index(q.u as int, 65535, tex.width as int);
                let sy = nearest_index(65535 - q.v as int, 65535, tex.height as int);
                if q.mask != 0 {
                    lemma_grid_flatten(lay.uvs.width as int, lay.uvs.height as int, j);
                    let x = j % (lay.uvs.width as int);
                    let y = j / (lay.uvs.width as int);
                    assert(lay.uvs.quad(x, y) == q);
                }
                lemma_blend_pixel_culled(prev[j], q, tex, reg, sx, sy);
            }
            assert(blended_canvas(prev, lay.uvs, tex) =~= prev);
        }
    }
}

/// Composites one full render: an initially transparent canvas sized by the
/// first layer's UV map, blended under every layer in order, with the
/// pre-scan shortcut deciding each optional overlay. When every overlay's
/// UV map is confined to its declared region — the structural property of
/// the baked assets — the output is additionally guaranteed pixel-identical
/// to the render with the shortcut disabled.
pub fn create_render(texture: &Image, layers: &Vec<RenderLayer>) -> (r: Image)
    requires
        texture.wf(),
        1 <= texture.width,
        1 <= texture.height,
        layers.len() >= 1,
        forall|i: int|
            0 <= i < layers.len() ==> (#[trigger] layers[i]).uvs.wf() && layers[i].uvs.width
                == layers[0].uvs.width && layers[i].uvs.height == layers[0].uvs.height,
        forall|i: int|
            0 <= i < layers.len() ==> match (#[trigger] layers[i]).cull {
                Option::None => true,
                Option::Some(reg) => reg.wf(),
            },
    ensures
        r.wf(),
        r.width == layers[0].uvs.width,
        r.height == layers[0].uvs.height,
        r.data@ == render_spec(
            *texture,
            layers@,
            layers[0].uvs.width as nat,
            layers[0].uvs.height as nat,
            layers.len() as int,
        ),
        (forall|i: int|
            0 <= i < layers.len() ==> match (#[trigger] layers[i]).cull {
                Option::None => true,
                Option::Some(reg) => layer_confined(layers[i].uvs, *texture, reg),
            }) ==> r.data@ == render_all_spec(
            *texture,
            layers@,
            layers[0].uvs.width as nat,
            layers[0].uvs.height as nat,
            layers.len() as int,
        ),
{
    let width: u32 = layers[0].uvs.width;
    let height: u32 = layers[0].uvs.height;
    let ghost w = width as nat;
    let ghost h = height as nat;
    let mut canvas: Image = Image::new_canvas(width, height);
    proof {
        assert(canvas.data@ =~= render_spec(*texture, layers@, w, h, 0));
    }
    let mut i: usize = 0;
    while i < layers.len()
        invariant
            texture.wf(),
            1 <= texture.width,
            1 <= texture.height,
            layers.len() >= 1,
            forall|k: int|
                0 <= k < layers.len() ==> (#[trigger] layers[k]).uvs.wf() && layers[k].uvs.width
                    == layers[0].uvs.width && layers[k].uvs.height == layers[0].uvs.height,
            forall|k: int|
                0 <= k < layers.len() ==> match (#[trigger] layers[k]).cull {
                    Option::None => true,
                    Option::Some(reg) => reg.wf(),
                },
            i <= layers.len(),
            width == layers[0].uvs.width,
            height == layers[0].uvs.height,
            w == width as nat,
            h == height as nat,
            canvas.wf(),
            canvas.width == width,
            canvas.height == height,
            canvas.data@ == render_spec(*texture, layers@, w, h, i as int),
        decreases layers.len() - i,
    {
        let lay = &layers[i];
        let go: bool = match &lay.cull {
            Option::None => true,
            Option::Some(reg) => has_pixel_in_region(texture, *reg),
        };
        if go {
            let ghost prev = canvas.data@;
            blend_layer_with_base(&mut canvas, &lay.uvs, texture);
            proof {
                assert forall|j: int| 0 <= j < prev.len() implies canvas.data@[j]
                    == blend_pixel_spec(prev[j], lay.uvs.data[j], *texture) by {
                    lemma_grid_flatten(width as int, height as int, j);
                    let x = j % (width as int);
                    let y = j / (width as int);
                    assert(canvas.pix(x, y) == blend_pixel_spec(
                        prev[y * width as int + x],
                        lay.uvs.quad(x, y),
                        *texture,
                    ));
                }
                assert(canvas.data@ =~= blended_canvas(prev, lay.uvs, *texture));
            }
        }
        i = i + 1;
    }
    proof {
        if (forall|k: int|
            0 <= k < layers.len() ==> match (#[trigger] layers[k]).cull {
                Option::None => true,
                Option::Some(reg) => layer_confined(layers[k].uvs, *texture, reg),
            }) {
            lemma_culling_transparent(*texture, layers@, w, h, layers.len() as int);
        }
    }
    canvas
}

} // verus!

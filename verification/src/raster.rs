//! Row-major pixel grids: the RGBA canvas/texture type and the UV-map type,
//! with the index arithmetic that relates flat storage to `(x, y)` access.

use vstd::prelude::*;
use crate::color::{transparent, Quad16, Rgba8};
use vstd::arithmetic::div_mod::{
    lemma_fundamental_div_mod, lemma_fundamental_div_mod_converse_div,
    lemma_fundamental_div_mod_converse_mod,
};
use vstd::arithmetic::mul::{lemma_mul_inequality, lemma_mul_is_commutative};

verus! {

/// Flattening a row-major index: `j` splits uniquely into a row `j / w` and a
/// column `j % w`.
pub proof fn lemma_grid_flatten(w: int, h: int, j: int)
    requires
        1 <= w,
        0 <= j < w * h,
    ensures
        0 <= j % w < w,
        0 <= j / w < h,
        (j / w) * w + (j % w) == j,
{
    lemma_fundamental_div_mod(j, w);
    lemma_mul_is_commutative(w, j / w);
    if j / w >= h {
        lemma_mul_inequality(h, j / w, w);
        lemma_mul_is_commutative(h, w);
    }
    if j / w < 0 {
        lemma_mul_inequality(j / w, -1, w);
    }
}

/// Two in-range grid positions with the same flat index are the same position.
pub proof fn lemma_grid_index(w: int, x1: int, y1: int, x2: int, y2: int)
    requires
        1 <= w,
        0 <= x1 < w,
        0 <= x2 < w,
        0 <= y1,
        0 <= y2,
        y1 * w + x1 == y2 * w + x2,
    ensures
        x1 == x2,
        y1 == y2,
{
    let j = y1 * w + x1;
    lemma_fundamental_div_mod_converse_div(j, w, y1, x1);
    lemma_fundamental_div_mod_converse_mod(j, w, y1, x1);
    lemma_fundamental_div_mod_converse_div(j, w, y2, x2);
    lemma_fundamental_div_mod_converse_mod(j, w, y2, x2);
}

/// A width-by-height RGBA8 raster stored row-major. Serves as the input
/// texture, the render canvas, the frame reference, and every output image.
pub struct Image {
    pub width: u32,
    pub height: u32,
    pub data: Vec<Rgba8>,
}

impl Image {
    /// Storage matches the dimensions, and each axis fits 16-bit addressing.
    pub open spec fn wf(self) -> bool {
        &&& self.data.len() == self.width * self.height
        &&& self.width <= 65535
        &&& self.height <= 65535
    }

    /// The pixel at column `x`, row `y`.
    pub open spec fn pix(self, x: int, y: int) -> Rgba8 {
        self.data[y * self.width + x]
    }

    /// Bounds: an in-range position has an in-range flat index.
    proof fn lemma_index_in_range(self, x: int, y: int)
        requires
            self.wf(),
            0 <= x < self.width,
            0 <= y < self.height,
        ensures
            0 <= y * self.width + x < self.data.len(),
            y * self.width + x < self.width * self.height,
    {
        let w = self.width as int;
        let h = self.height as int;
        lemma_mul_inequality(y, h - 1, w);
        lemma_mul_is_commutative(h - 1, w);
        lemma_mul_is_commutative(h, w);
        assert(w * (h - 1) + w == w * h) by (nonlinear_arith);
        assert(y * w >= 0) by (nonlinear_arith)
            requires
                y >= 0,
                w >= 1,
        ;
    }

    /// Reads the pixel at `(x, y)`.
    pub fn get(&self, x: u32, y: u32) -> (r: Rgba8)
        requires
            self.wf(),
            x < self.width,
            y < self.height,
        ensures
            r == self.pix(x as int, y as int),
    {
        proof {
            self.lemma_index_in_range(x as int, y as int);
        }
        let idx: u64 = (y as u64) * (self.width as u64) + (x as u64);
        self.data[idx as usize]
    }

    /// Overwrites the pixel at `(x, y)`, leaving every other pixel unchanged.
    pub fn set(&mut self, x: u32, y: u32, p: Rgba8)
        requires
            old(self).wf(),
            x < old(self).width,
            y < old(self).height,
        ensures
            final(self).wf(),
            final(self).width == old(self).width,
            final(self).height == old(self).height,
            final(self).data@ == old(self).data@.update(
                y as int * old(self).width as int + x as int,
                p,
            ),
            final(self).pix(x as int, y as int) == p,
            forall|x2: int, y2: int|
                0 <= x2 < old(self).width && 0 <= y2 < old(self).height && !(x2 == x as int && y2
                    == y as int) ==> final(self).pix(x2, y2) == old(self).pix(x2, y2),
    {
        proof {
            self.lemma_index_in_range(x as int, y as int);
        }
        let idx: u64 = (y as u64) * (self.width as u64) + (x as u64);
        let i: usize = idx as usize;
        self.data[i] = p;
        proof {
            assert forall|x2: int, y2: int|
                0 <= x2 < old(self).width && 0 <= y2 < old(self).height && !(x2 == x as int && y2
                    == y as int) implies final(self).pix(x2, y2) == old(self).pix(x2, y2) by {
                old(self).lemma_index_in_range(x2, y2);
                if y2 * old(self).width as int + x2 == idx as int {
                    lemma_grid_index(
                        old(self).width as int,
                        x2,
                        y2,
                        x as int,
                        y as int,
                    );
                }
            }
        }
    }

    /// Builds a fully transparent canvas of the given size.
    pub fn new_canvas(width: u32, height: u32) -> (r: Image)
        requires
            width <= 65535,
            height <= 65535,
        ensures
            r.wf(),
            r.width == width,
            r.height == height,
            forall|i: int| 0 <= i < r.data.len() ==> r.data[i] == transparent(),
    {
        proof {
            assert((width as int) * (height as int) <= 65535 * 65535) by (nonlinear_arith)
                requires
                    width <= 65535,
                    height <= 65535,
            ;
        }
        let total: u64 = (width as u64) * (height as u64);
        let mut data: Vec<Rgba8> = Vec::new();
        let mut i: u64 = 0;
        while i < total
            invariant
                i <= total,
                total == width * height,
                data.len() == i,
                forall|j: int| 0 <= j < i ==> data[j] == transparent(),
            decreases total - i,
        {
            data.push(Rgba8 { r: 0, g: 0, b: 0, a: 0 });
            i = i + 1;
        }
        Image { width, height, data }
    }
}

/// A width-by-height grid of UV quads stored row-major: one body-part layer's
/// precomputed coordinate, lighting, and mask raster.
pub struct UvMap {
    pub width: u32,
    pub height: u32,
    pub data: Vec<Quad16>,
}

impl UvMap {
    /// Storage matches the dimensions, and each axis fits 16-bit addressing.
    pub open spec fn wf(self) -> bool {
        &&& self.data.len() == self.width * self.height
        &&& self.width <= 65535
        &&& self.height <= 65535
    }

    /// The quad at column `x`, row `y`.
    pub open spec fn quad(self, x: int, y: int) -> Quad16 {
        self.data[y * self.width + x]
    }

    proof fn lemma_index_in_range(self, x: int, y: int)
        requires
            self.wf(),
            0 <= x < self.width,
            0 <= y < self.height,
        ensures
            0 <= y * self.width + x < self.data.len(),
    {
        let w = self.width as int;
        let h = self.height as int;
        lemma_mul_inequality(y, h - 1, w);
        lemma_mul_is_commutative(h - 1, w);
        lemma_mul_is_commutative(h, w);
        assert(w * (h - 1) + w == w * h) by (nonlinear_arith);
        assert(y * w >= 0) by (nonlinear_arith)
            requires
                y >= 0,
                w >= 1,
        ;
    }

    /// Reads the quad at `(x, y)`.
    pub fn get(&self, x: u32, y: u32) -> (r: Quad16)
        requires
            self.wf(),
            x < self.width,
            y < self.height,
        ensures
            r == self.quad(x as int, y as int),
    {
        proof {
            self.lemma_index_in_range(x as int, y as int);
        }
        let idx: u64 = (y as u64) * (self.width as u64) + (x as u64);
        self.data[idx as usize]
    }
}

} // verus!

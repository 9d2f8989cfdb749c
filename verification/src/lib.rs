//! Converts a paletted character texture into a stylized 2D portrait by
//! resampling the texture through precomputed per-pixel coordinate maps,
//! applying baked lighting, and compositing body-part layers with
//! gamma-correct alpha blending; a second stage warps the finished portrait
//! into fixed UI frame slots through an affine transform and an alpha mask.
//!
//! All pixel arithmetic is exact fixed-point / rational integer arithmetic:
//! normalized channel values are carried as explicit numerator/denominator
//! pairs, and the gamma 2.2 transfer curve (2.2 == 11/5) is evaluated with
//! integer fifth and eleventh roots at a documented fixed-point precision.

pub mod blend;
pub mod color;
pub mod frame;
pub mod gamma;
pub mod layer;
pub mod math;
pub mod raster;
pub mod render;
pub mod sampler;

pub use blend::{alpha_acc, alpha_blend, blend_channel, blend_texel};
pub use color::{normalize_rgba_u8, normalize_rgba_u16, to_u8_clamped, Quad16, Ratio, Rgba8};
pub use frame::{blend_alpha, create_chara_image, FrameTransform};
pub use layer::{blend_layer_with_base, has_pixel_in_region, Region};
pub use raster::{Image, UvMap};
pub use render::{create_render, RenderLayer};
pub use sampler::{interpolate_nearest, sample_texture};

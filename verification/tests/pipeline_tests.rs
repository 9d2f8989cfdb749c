use minecraft_render::{
    alpha_acc, alpha_blend, blend_alpha, blend_channel, blend_layer_with_base, create_chara_image,
    create_render, has_pixel_in_region, interpolate_nearest, sample_texture, to_u8_clamped,
    FrameTransform, Image, Quad16, Ratio, Region, RenderLayer, Rgba8, UvMap,
};

fn rat(num: i64, den: u32) -> Ratio {
    Ratio { num, den }
}

fn px(r: u8, g: u8, b: u8, a: u8) -> Rgba8 {
    Rgba8 { r, g, b, a }
}

fn image(width: u32, height: u32, data: Vec<Rgba8>) -> Image {
    assert_eq!(data.len() as u32, width * height);
    Image {
        width,
        height,
        data,
    }
}

fn quad(u: u16, v: u16, light: u16, mask: u16) -> Quad16 {
    Quad16 { u, v, light, mask }
}

/// A 16x16 texture that is fully transparent except for one opaque pixel.
fn one_dot_texture(dot_x: u32, dot_y: u32) -> Image {
    let mut data = vec![px(0, 0, 0, 0); 256];
    data[(dot_y * 16 + dot_x) as usize] = px(255, 255, 255, 255);
    image(16, 16, data)
}

/// A 2x2 overlay UV map whose every quad samples near (0.9, 0.9) of the
/// texture, inside the region [12/16, 1) x [12/16, 1).
fn overlay_uvs() -> UvMap {
    UvMap {
        width: 2,
        height: 2,
        data: vec![quad(58982, 6553, 32768, 65535); 4],
    }
}

#[test]
fn test_interpolate_nearest_half_pixel() {
    assert_eq!(interpolate_nearest(rat(1, 2), rat(1, 2), 8u32, 8u32), (4u32, 4u32));
}

#[test]
fn test_normalize_quantize_roundtrip() {
    // Quantization inverts normalization exactly, for every channel value.
    for c in 0u8..=255u8 {
        assert_eq!(to_u8_clamped(rat(c as i64, 255)), c);
    }
    assert_eq!(to_u8_clamped(rat(0, 65535)), 0);
    assert_eq!(to_u8_clamped(rat(65535, 65535)), 255);
}

#[test]
fn test_sample_texture_flips_v() {
    let tex = image(
        2,
        2,
        vec![px(1, 0, 0, 255), px(2, 0, 0, 255), px(3, 0, 0, 255), px(4, 0, 0, 255)],
    );
    // v = 1 is the top of a bottom-left-origin coordinate system: row 0.
    assert_eq!(sample_texture(&tex, rat(0, 1), rat(1, 1)), px(1, 0, 0, 255));
    // v = 0 is the bottom: the last row.
    assert_eq!(sample_texture(&tex, rat(0, 1), rat(0, 1)), px(3, 0, 0, 255));
    assert_eq!(sample_texture(&tex, rat(1, 1), rat(1, 1)), px(2, 0, 0, 255));
}

#[test]
fn test_blend_zero_alpha_keeps_canvas() {
    assert_eq!(blend_channel(42, 200, 65535, 0, 65535), 42);
    assert_eq!(blend_channel(42, 200, 65535, 128, 0), 42);
    assert_eq!(blend_channel(0, 200, 65535, 0, 0), 0);
}

#[test]
fn test_blend_full_alpha_is_exact_lit_value() {
    // lit = channel * lighting * 2; lighting 32768/65535 is one half.
    assert_eq!(blend_channel(42, 100, 32768, 255, 65535), 100);
    // Full lighting doubles the channel value.
    assert_eq!(blend_channel(0, 100, 65535, 255, 65535), 200);
}

#[test]
fn test_blend_partial_alpha_is_gamma_correct() {
    assert_eq!(blend_channel(100, 200, 32768, 128, 65535), 160);
    // Naive blending would give about 128 here; linear-light blending of
    // black under a white lit layer at half alpha is much brighter.
    assert_eq!(blend_channel(0, 255, 32768, 128, 65535), 186);
    assert_eq!(blend_channel(200, 0, 32768, 128, 65535), 145);
    assert_eq!(blend_channel(50, 50, 16384, 10, 65535), 49);
}

#[test]
fn test_alpha_accumulates_and_saturates() {
    assert_eq!(alpha_acc(100, 255, 65535), 255);
    assert_eq!(alpha_acc(100, 0, 65535), 100);
    assert_eq!(alpha_acc(10, 128, 32768), 74);
    assert!(alpha_acc(200, 1, 1) >= 200);
}

#[test]
fn test_alpha_blend_fixed_point() {
    // 1024 is 1.0 on the fixed-point grid; the gamma round trip is exact there.
    assert_eq!(alpha_blend(1024, 1024, 1234567), 1024);
    // Black blended halfway to 1.0 in linear light: 0.5 ^ (1/2.2) of 1024.
    assert_eq!(alpha_blend(0, 1024, 8355712), 747);
}

#[test]
fn test_alpha_blend_extremes_return_operand_exactly() {
    // Alpha zero keeps the existing value and alpha one gives the layer
    // value, bit for bit, with no gamma round trip: 512 stays 512, where the
    // round trip alone would drop a fixed-point step.
    assert_eq!(alpha_blend(512, 300, 0), 512);
    assert_eq!(alpha_blend(300, 512, 16711425), 512);
    assert_eq!(alpha_blend(0, 2048, 0), 0);
    assert_eq!(alpha_blend(0, 2048, 16711425), 2048);
}

#[test]
fn test_has_pixel_in_region() {
    let tex = one_dot_texture(14, 14);
    assert!(has_pixel_in_region(&tex, Region { x0: 12, x1: 16, y0: 12, y1: 16 }));
    assert!(!has_pixel_in_region(&tex, Region { x0: 0, x1: 4, y0: 0, y1: 4 }));
    let empty = image(16, 16, vec![px(0, 0, 0, 0); 256]);
    assert!(!has_pixel_in_region(&empty, Region { x0: 0, x1: 16, y0: 0, y1: 16 }));
}

#[test]
fn test_render_culling_is_transparent() {
    // The texture is opaque only far away from the overlay's region, so the
    // pre-scan skips the overlay; output must equal the non-culled render.
    let tex = one_dot_texture(2, 2);
    let culled = vec![RenderLayer {
        uvs: overlay_uvs(),
        cull: Some(Region { x0: 12, x1: 16, y0: 12, y1: 16 }),
    }];
    let always = vec![RenderLayer { uvs: overlay_uvs(), cull: None }];
    let out_culled = create_render(&tex, &culled);
    let out_always = create_render(&tex, &always);
    assert_eq!(out_culled.width, out_always.width);
    assert_eq!(out_culled.height, out_always.height);
    assert_eq!(out_culled.data, out_always.data);
    assert!(out_culled.data.iter().all(|p| *p == px(0, 0, 0, 0)));
}

#[test]
fn test_render_culling_runs_when_region_visible() {
    // With the sampled region visible, the culled and non-culled renders
    // still agree, and now actually draw.
    let tex = one_dot_texture(14, 14);
    let culled = vec![RenderLayer {
        uvs: overlay_uvs(),
        cull: Some(Region { x0: 12, x1: 16, y0: 12, y1: 16 }),
    }];
    let always = vec![RenderLayer { uvs: overlay_uvs(), cull: None }];
    let out_culled = create_render(&tex, &culled);
    let out_always = create_render(&tex, &always);
    assert_eq!(out_culled.data, out_always.data);
    assert!(out_culled.data.iter().any(|p| p.a > 0));
}

#[test]
fn test_render_single_opaque_layer() {
    let tex = image(
        2,
        2,
        vec![px(200, 100, 50, 255), px(0, 0, 0, 0), px(0, 0, 0, 0), px(0, 0, 0, 0)],
    );
    // One 1x1 layer sampling the top-left texel at half lighting (the gain
    // of 2 restores the full channel values), fully masked.
    let layers = vec![RenderLayer {
        uvs: UvMap { width: 1, height: 1, data: vec![quad(0, 65535, 32768, 65535)] },
        cull: None,
    }];
    let out = create_render(&tex, &layers);
    assert_eq!(out.width, 1);
    assert_eq!(out.height, 1);
    assert_eq!(out.data, vec![px(200, 100, 50, 255)]);
}

#[test]
fn test_render_two_layers_back_to_front() {
    // The back layer lays down opaque red; the front layer blends a
    // half-transparent white texel gamma-correctly over it.
    let tex = image(
        2,
        2,
        vec![
            px(200, 0, 0, 255),
            px(255, 255, 255, 128),
            px(0, 0, 0, 0),
            px(0, 0, 0, 0),
        ],
    );
    let back = RenderLayer {
        uvs: UvMap { width: 1, height: 1, data: vec![quad(0, 65535, 32768, 65535)] },
        cull: None,
    };
    let front = RenderLayer {
        uvs: UvMap { width: 1, height: 1, data: vec![quad(65535, 65535, 32768, 65535)] },
        cull: None,
    };
    let out = create_render(&tex, &vec![back, front]);
    assert_eq!(out.data, vec![px(229, 186, 186, 255)]);
}

#[test]
fn test_blend_layer_masked_out_changes_nothing() {
    let mut canvas = image(1, 1, vec![px(9, 8, 7, 6)]);
    let uvs = UvMap { width: 1, height: 1, data: vec![quad(0, 0, 65535, 0)] };
    let tex = image(1, 1, vec![px(255, 255, 255, 255)]);
    blend_layer_with_base(&mut canvas, &uvs, &tex);
    assert_eq!(canvas.data, vec![px(9, 8, 7, 6)]);
}

#[test]
fn test_blend_alpha_minimum_rule() {
    let mut current = image(2, 1, vec![px(1, 2, 3, 255), px(4, 5, 6, 100)]);
    let reference = image(2, 1, vec![px(0, 0, 0, 200), px(0, 0, 0, 255)]);
    blend_alpha(&mut current, &reference);
    // Reference alpha 200 against warped alpha 255 yields 200.
    assert_eq!(current.data[0], px(1, 2, 3, 200));
    // Warped alpha 100 against reference alpha 255 yields 100.
    assert_eq!(current.data[1], px(4, 5, 6, 100));
}

#[test]
fn test_chara_image_identity_transform() {
    let render = image(
        2,
        2,
        vec![
            px(10, 20, 30, 255),
            px(40, 50, 60, 100),
            px(70, 80, 90, 255),
            px(5, 6, 7, 0),
        ],
    );
    let reference = image(
        2,
        2,
        vec![px(0, 0, 0, 200), px(0, 0, 0, 255), px(0, 0, 0, 128), px(0, 0, 0, 255)],
    );
    let t = FrameTransform { scale: 16777216, tx: 0, ty: 0 };
    let out = create_chara_image(&render, &reference, t);
    assert_eq!(out.data[0], px(10, 20, 30, 200));
    assert_eq!(out.data[1], px(40, 50, 60, 100));
    assert_eq!(out.data[2], px(70, 80, 90, 128));
    assert_eq!(out.data[3], px(5, 6, 7, 0));
}

#[test]
fn test_chara_image_bilinear_midpoint() {
    let render = image(2, 1, vec![px(100, 0, 0, 255), px(200, 0, 0, 255)]);
    let reference = image(2, 1, vec![px(0, 0, 0, 255), px(0, 0, 0, 255)]);
    // Scale 2.0: destination pixel 1 inverse-maps to source 0.5, the exact
    // midpoint of the two texels.
    let t = FrameTransform { scale: 33554432, tx: 0, ty: 0 };
    let out = create_chara_image(&render, &reference, t);
    assert_eq!(out.data[0], px(100, 0, 0, 255));
    assert_eq!(out.data[1], px(150, 0, 0, 255));
}

#[test]
fn test_chara_image_out_of_bounds_is_transparent() {
    let render = image(1, 1, vec![px(50, 60, 70, 255)]);
    let reference = image(2, 1, vec![px(0, 0, 0, 255), px(0, 0, 0, 255)]);
    // Translated far off the render: every source coordinate is negative.
    let t = FrameTransform { scale: 16777216, tx: 83886080, ty: 0 };
    let out = create_chara_image(&render, &reference, t);
    assert_eq!(out.data[0], px(0, 0, 0, 0));
    assert_eq!(out.data[1], px(0, 0, 0, 0));
}

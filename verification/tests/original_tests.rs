use minecraft_render::{
    interpolate_nearest, normalize_rgba_u8, normalize_rgba_u16, to_u8_clamped, Quad16, Ratio,
    Rgba8,
};

fn ratio(num: i64, den: u32) -> Ratio {
    Ratio { num, den }
}

#[test]
fn test_interpolate_nearest_8x8_edges() {
    assert_eq!(interpolate_nearest(ratio(0, 1), ratio(0, 1), 8u32, 8u32), (0u32, 0u32));
    assert_eq!(interpolate_nearest(ratio(0, 1), ratio(1, 1), 8u32, 8u32), (0u32, 7u32));
    assert_eq!(interpolate_nearest(ratio(1, 1), ratio(0, 1), 8u32, 8u32), (7u32, 0u32));
    assert_eq!(interpolate_nearest(ratio(1, 1), ratio(1, 1), 8u32, 8u32), (7u32, 7u32));
}

#[test]
fn test_interpolate_nearest_out_of_bounds() {
    assert_eq!(interpolate_nearest(ratio(0, 1), ratio(3, 2), 8u32, 8u32), (0u32, 7u32));
    assert_eq!(interpolate_nearest(ratio(3, 2), ratio(0, 1), 8u32, 8u32), (7u32, 0u32));
    assert_eq!(interpolate_nearest(ratio(3, 2), ratio(3, 2), 8u32, 8u32), (7u32, 7u32));
}

#[test]
fn test_normalize_u8() {
    assert_eq!(
        normalize_rgba_u8(&Rgba8 { r: 0u8, g: 0u8, b: 0u8, a: 0u8 }),
        (ratio(0, 255), ratio(0, 255), ratio(0, 255), ratio(0, 255))
    );
    assert_eq!(
        normalize_rgba_u8(&Rgba8 { r: 255u8, g: 255u8, b: 255u8, a: 255u8 }),
        (ratio(255, 255), ratio(255, 255), ratio(255, 255), ratio(255, 255))
    );
}

#[test]
fn test_normalize_u16() {
    assert_eq!(
        normalize_rgba_u16(&Quad16 { u: 0u16, v: 0u16, light: 0u16, mask: 0u16 }),
        (ratio(0, 65535), ratio(0, 65535), ratio(0, 65535), ratio(0, 65535))
    );
    assert_eq!(
        normalize_rgba_u16(&Quad16 { u: 65535u16, v: 65535u16, light: 65535u16, mask: 65535u16 }),
        (
            ratio(65535, 65535),
            ratio(65535, 65535),
            ratio(65535, 65535),
            ratio(65535, 65535)
        )
    );
}

#[test]
fn test_to_u8_clamped() {
    assert_eq!(to_u8_clamped(ratio(999, 1000)), 255u8);
    assert_eq!(to_u8_clamped(ratio(-3, 2)), 0u8);
    assert_eq!(to_u8_clamped(ratio(0, 1)), 0u8);
    assert_eq!(to_u8_clamped(ratio(1, 2)), 128u8);
    assert_eq!(to_u8_clamped(ratio(1, 1)), 255u8);
    assert_eq!(to_u8_clamped(ratio(101, 100)), 255u8);
}

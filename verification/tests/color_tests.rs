use softrender::color::Color;

#[test]
fn new_and_black() {
    let c = Color::new(12, 34, 56);
    assert_eq!(c.r, 12);
    assert_eq!(c.g, 34);
    assert_eq!(c.b, 56);
    assert!(Color::black().is_black());
    assert!(!c.is_black());
}

#[test]
fn hex_round_trip_samples() {
    let cases = [
        Color::new(0, 0, 0),
        Color::new(255, 255, 255),
        Color::new(1, 2, 3),
        Color::new(130, 20, 0),
        Color::new(39, 101, 167),
    ];
    for c in cases {
        assert_eq!(Color::from_hex(c.to_hex()), c);
    }
    assert_eq!(Color::from_hex(0x123456), Color::new(0x12, 0x34, 0x56));
    assert_eq!(Color::new(0x12, 0x34, 0x56).to_hex(), 0x123456);
}

#[test]
fn from_hex_ignores_high_byte() {
    assert_eq!(Color::from_hex(0xFF000000), Color::new(0, 0, 0));
}

#[test]
fn lerp_endpoints_exact() {
    let a = Color::new(13, 200, 255);
    let b = Color::new(240, 3, 0);
    assert_eq!(a.lerp(&b, 0), a);
    assert_eq!(a.lerp(&b, 1000), b);
}

#[test]
fn lerp_clamps_factor() {
    let a = Color::new(10, 20, 30);
    let b = Color::new(200, 100, 50);
    assert_eq!(a.lerp(&b, -500), a);
    assert_eq!(a.lerp(&b, 5000), b);
}

#[test]
fn lerp_midpoint_rounds() {
    let a = Color::new(0, 0, 0);
    let b = Color::new(255, 1, 10);
    let m = a.lerp(&b, 500);
    // each channel is round(a + (b - a) * 0.5)
    assert_eq!(m, Color::new(128, 1, 5));
}

#[test]
fn blend_add_saturates_at_boundaries() {
    let a = Color::new(255, 0, 200);
    let b = Color::new(255, 0, 100);
    assert_eq!(a.blend_add(&b), Color::new(255, 0, 255));
    assert_eq!(Color::black().blend_add(&Color::black()), Color::black());
}

#[test]
fn blend_subtract_floors_at_zero() {
    let a = Color::new(10, 255, 0);
    let b = Color::new(20, 255, 255);
    assert_eq!(a.blend_subtract(&b), Color::new(0, 0, 0));
    assert_eq!(Color::new(200, 150, 100).blend_subtract(&Color::new(50, 150, 0)), Color::new(150, 0, 100));
}

#[test]
fn blend_multiply_normalizes() {
    let a = Color::new(255, 128, 0);
    let b = Color::new(255, 255, 255);
    assert_eq!(a.blend_multiply(&b), Color::new(255, 128, 0));
    assert_eq!(a.blend_multiply(&Color::black()), Color::black());
    // 128 * 128 / 255 = 64 (truncated)
    assert_eq!(Color::new(128, 0, 0).blend_multiply(&Color::new(128, 0, 0)).r, 64);
}

#[test]
fn blend_screen_formula() {
    let a = Color::new(0, 255, 128);
    let b = Color::new(0, 255, 128);
    // 255 - (255-a)(255-b)/255
    assert_eq!(a.blend_screen(&b), Color::new(0, 255, 255 - ((127 * 127) / 255) as u8));
    assert_eq!(Color::black().blend_screen(&Color::black()), Color::black());
}

#[test]
fn blend_normal_black_passes_base() {
    let base = Color::new(1, 2, 3);
    assert_eq!(base.blend_normal(&Color::black()), base);
    assert_eq!(base.blend_normal(&Color::new(9, 9, 9)), Color::new(9, 9, 9));
}

#[test]
fn scale_clamps_channels() {
    let c = Color::new(100, 200, 255);
    assert_eq!(c.scale(1000), c);
    assert_eq!(c.scale(0), Color::black());
    assert_eq!(c.scale(-700), Color::black());
    assert_eq!(c.scale(2000), Color::new(200, 255, 255));
    assert_eq!(c.scale(500), Color::new(50, 100, 127));
}

#[test]
fn plus_is_saturating_sum() {
    assert_eq!(Color::new(200, 1, 0).plus(&Color::new(100, 2, 0)), Color::new(255, 3, 0));
}

#[test]
fn scale_saturates_for_huge_factors() {
    assert_eq!(Color::new(1, 0, 200).scale(i64::MAX), Color::new(255, 0, 255));
    assert_eq!(Color::new(0, 0, 0).scale(i64::MAX), Color::black());
}

#[test]
fn from_unit_clamps_and_scales() {
    assert_eq!(Color::from_unit(1000, 0, 500), Color::new(255, 0, 127));
    assert_eq!(Color::from_unit(-100, 2000, 1000), Color::new(0, 255, 255));
}

use softrender::color::Color;
use softrender::fragment::Fragment;
use softrender::geom::{Vec2Fx, Vec3Fx, Mat4Fx};
use softrender::shaders::{
    static_pattern_shader, moving_circles_shader, combined_shader, combined_blend_shader,
    neon_light_shader, dalmata_shader, luna_shader, cloud_shader, cellular_shader, lava_shader,
    earth, noise_request, fragment_shader, BlendMode, NoiseReply, NoiseRequest, ShaderKind,
};
use softrender::transform::Uniforms;

fn identity4() -> Mat4Fx {
    Mat4Fx {
        m00: 1000, m01: 0, m02: 0, m03: 0,
        m10: 0, m11: 1000, m12: 0, m13: 0,
        m20: 0, m21: 0, m22: 1000, m23: 0,
        m30: 0, m31: 0, m32: 0, m33: 1000,
    }
}

fn uniforms(time: u32) -> Uniforms {
    Uniforms {
        model_matrix: identity4(),
        view_matrix: identity4(),
        projection_matrix: identity4(),
        viewport_matrix: identity4(),
        time,
    }
}

fn frag(x: i64, y: i64, depth: i64, intensity: i64) -> Fragment {
    Fragment {
        x: 0,
        y: 0,
        depth,
        color: Color::black(),
        normal: Vec3Fx { x: 0, y: 0, z: 1000 },
        intensity,
        vertex_position: Vec3Fx { x, y, z: 0 },
    }
}

#[test]
fn dalmata_is_deterministic() {
    let f = frag(123, 456, 1000, 800);
    let u = uniforms(7);
    let first = dalmata_shader(&f, &u, -250);
    let second = dalmata_shader(&f, &u, -250);
    assert_eq!(first, second);
}

#[test]
fn dalmata_thresholds() {
    let f = frag(0, 0, 1000, 1000);
    let u = uniforms(0);
    assert_eq!(dalmata_shader(&f, &u, 499), Color::new(255, 255, 255));
    assert_eq!(dalmata_shader(&f, &u, 500), Color::new(0, 0, 0));
    // intensity scales the spot color
    let half = frag(0, 0, 1000, 500);
    assert_eq!(dalmata_shader(&half, &u, -1000), Color::new(127, 127, 127));
}

#[test]
fn luna_uses_two_grays() {
    let f = frag(0, 0, 1000, 1000);
    let u = uniforms(0);
    assert_eq!(luna_shader(&f, &u, 0), Color::new(135, 135, 135));
    assert_eq!(luna_shader(&f, &u, 900), Color::new(191, 191, 191));
}

#[test]
fn cloud_threshold_picks_sky_or_cloud() {
    let f = frag(0, 0, 1000, 1000);
    let u = uniforms(0);
    assert_eq!(cloud_shader(&f, &u, 501), Color::new(255, 255, 255));
    assert_eq!(cloud_shader(&f, &u, 500), Color::new(30, 97, 145));
}

#[test]
fn cellular_ladder_boundaries() {
    let f = frag(0, 0, 1000, 1000);
    let u = uniforms(0);
    assert_eq!(cellular_shader(&f, &u, 149), Color::new(85, 107, 47));
    assert_eq!(cellular_shader(&f, &u, -149), Color::new(85, 107, 47));
    assert_eq!(cellular_shader(&f, &u, 150), Color::new(124, 252, 0));
    assert_eq!(cellular_shader(&f, &u, 700), Color::new(34, 139, 34));
    assert_eq!(cellular_shader(&f, &u, 750), Color::new(39, 101, 167));
}

#[test]
fn lava_extremes_hit_palette_ends() {
    let f = frag(0, 0, 1000, 1000);
    let u = uniforms(0);
    // averaged noise at 1.0 reaches the bright color, at or below 0 the dark one
    assert_eq!(lava_shader(&f, &u, 1000, 1000), Color::new(255, 240, 0));
    assert_eq!(lava_shader(&f, &u, -1000, -1000), Color::new(130, 20, 0));
}

#[test]
fn earth_base_palette_and_clouds() {
    let f = frag(0, 0, 1000, 1000);
    let u = uniforms(0);
    assert_eq!(earth(&f, &u, 0, 0), Color::new(85, 107, 47));
    assert_eq!(earth(&f, &u, 300, 0), Color::new(2, 100, 177));
    // cloud noise above one half blends half white over the base
    let base = Color::new(2, 100, 177);
    let expected = Color::new(255, 255, 255).scale(500).plus(&base.scale(500));
    assert_eq!(earth(&f, &u, 300, 501), expected);
}

#[test]
fn static_pattern_at_origin() {
    // sin(0) = 0: no red, full green, half blue
    let f = frag(0, 0, 1000, 1000);
    let u = uniforms(0);
    assert_eq!(static_pattern_shader(&f, &u), Color::new(0, 255, 128));
}

#[test]
fn moving_circles_hits_first_center() {
    // at time zero the first circle sits at x = 0.5, y = 0.3
    let u = uniforms(0);
    let inside = frag(500, 300, 1000, 1000);
    let outside = frag(0, 0, 1000, 1000);
    assert_eq!(moving_circles_shader(&inside, &u), Color::new(255, 255, 255));
    assert_eq!(moving_circles_shader(&outside, &u), Color::new(0, 0, 0));
}

#[test]
fn combined_prefers_circles_over_pattern() {
    let u = uniforms(0);
    let on_circle = frag(500, 300, 1000, 700);
    let c = combined_shader(&on_circle, &u);
    assert_eq!(c, Color::new(255, 255, 255).scale(700));
    let off_circle = frag(0, 0, 1000, 1000);
    assert_eq!(combined_shader(&off_circle, &u), static_pattern_shader(&off_circle, &u));
}

#[test]
fn neon_light_far_from_stripe_is_background() {
    // y = 0.1: a full stripe-width from the center, glow and core are dark
    let f = frag(0, 0, 1000, 1000);
    assert_eq!(neon_light_shader(&f, &uniforms(0)), Color::new(10, 10, 20));
}

#[test]
fn neon_light_core_at_stripe_center() {
    // y = 0.1 reaches distance 0: full glow and core
    let f = frag(0, 100, 1000, 1000);
    let c = neon_light_shader(&f, &uniforms(0));
    // the core alone contributes (204, 229, 255); the blend can only raise channels
    assert!(c.r >= 204 && c.g >= 229 && c.b == 255);
}

#[test]
fn blend_mode_selection() {
    let f = frag(0, 0, 1000, 1000);
    let purple = Color::new(128, 0, 128);
    let yellow = Color::new(255, 255, 0);
    // the fragment at the origin lies inside the yellow disc
    assert_eq!(combined_blend_shader(&f, BlendMode::Normal), yellow);
    assert_eq!(combined_blend_shader(&f, BlendMode::Add), purple.blend_add(&yellow));
    assert_eq!(combined_blend_shader(&f, BlendMode::Subtract), purple.blend_subtract(&yellow));
    assert_eq!(combined_blend_shader(&f, BlendMode::Multiply), purple.blend_multiply(&yellow));
    // outside the disc the circle layer is black and the normal blend keeps the base
    let far = frag(1000, 1000, 1000, 1000);
    assert_eq!(combined_blend_shader(&far, BlendMode::Normal), purple);
}

#[test]
fn noise_request_shapes() {
    let f = frag(7, 9, 2000, 1000);
    let u = uniforms(4);
    assert_eq!(noise_request(ShaderKind::StaticPattern, &f, &u), NoiseRequest::Nothing);
    assert_eq!(noise_request(ShaderKind::Dalmata, &f, &u), NoiseRequest::Plane(700, 900));
    assert_eq!(
        noise_request(ShaderKind::Cloud, &f, &u),
        NoiseRequest::Plane(7 * 300 + 100_000 + 4 * 150_000, 9 * 300 + 10_000)
    );
    assert_eq!(
        noise_request(ShaderKind::Cellular, &f, &u),
        NoiseRequest::Plane(7 * 300 + 50_000, 9 * 300 + 50_000)
    );
    match noise_request(ShaderKind::Lava, &f, &u) {
        NoiseRequest::SpacePair(x1, y1, _z1, x2, y2, _z2) => {
            assert_eq!(x1, 7000);
            assert_eq!(y1, 9000);
            assert_eq!(x2, (7 + 1_000_000) * 1000);
            assert_eq!(y2, (9 + 1_000_000) * 1000);
        }
        other => panic!("lava asks for two space samples, got {:?}", other),
    }
    match noise_request(ShaderKind::Earth, &f, &u) {
        NoiseRequest::PlanePair(_, _, cx, cy) => {
            assert_eq!(cx, 7 * 100 + 100_000 + 4 * 500);
            assert_eq!(cy, 9 * 100 + 100_000);
        }
        other => panic!("earth asks for two plane samples, got {:?}", other),
    }
}

#[test]
fn fragment_shader_dispatches_and_rejects_mismatch() {
    let f = frag(0, 0, 1000, 1000);
    let u = uniforms(0);
    assert_eq!(
        fragment_shader(&f, &u, ShaderKind::Dalmata, &NoiseReply::One(-100)),
        dalmata_shader(&f, &u, -100)
    );
    assert_eq!(
        fragment_shader(&f, &u, ShaderKind::StaticPattern, &NoiseReply::Nothing),
        static_pattern_shader(&f, &u)
    );
    // a mismatched reply shape yields black
    assert_eq!(
        fragment_shader(&f, &u, ShaderKind::Dalmata, &NoiseReply::Nothing),
        Color::black()
    );
    assert_eq!(
        fragment_shader(&f, &u, ShaderKind::Lava, &NoiseReply::One(0)),
        Color::black()
    );
}

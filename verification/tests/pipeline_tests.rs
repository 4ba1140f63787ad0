use softrender::color::Color;
use softrender::fragment::Fragment;
use softrender::framebuffer::{Framebuffer, DEPTH_INF};
use softrender::geom::{Mat4Fx, Vec2Fx, Vec3Fx};
use softrender::render::{rasterize_triangles, shade_and_commit, transform_vertices};
use softrender::shaders::{noise_request, NoiseReply, NoiseRequest, ShaderKind};
use softrender::texture::Texture;
use softrender::transform::{create_viewport_matrix, vertex_shader, Uniforms};
use softrender::vertex::Vertex;
use fastnoise_lite::{FastNoiseLite, NoiseType};

fn identity4() -> Mat4Fx {
    Mat4Fx {
        m00: 1000, m01: 0, m02: 0, m03: 0,
        m10: 0, m11: 1000, m12: 0, m13: 0,
        m20: 0, m21: 0, m22: 1000, m23: 0,
        m30: 0, m31: 0, m32: 0, m33: 1000,
    }
}

fn uniforms_for(width: i64, height: i64, time: u32) -> Uniforms {
    Uniforms {
        model_matrix: identity4(),
        view_matrix: identity4(),
        projection_matrix: identity4(),
        viewport_matrix: create_viewport_matrix(width, height),
        time,
    }
}

fn model_vertex(x: i64, y: i64, z: i64) -> Vertex {
    Vertex::new(
        Vec3Fx { x, y, z },
        Vec3Fx { x: 0, y: 0, z: 1000 },
        Vec2Fx { x: 0, y: 0 },
        Color::new(10, 20, 30),
    )
}

#[test]
fn viewport_matrix_maps_ndc_corners() {
    let m = create_viewport_matrix(100, 100);
    assert_eq!(m.m00, 50_000);
    assert_eq!(m.m03, 50_000);
    assert_eq!(m.m11, -50_000);
    assert_eq!(m.m13, 50_000);
    assert_eq!(m.m22, 1000);
    assert_eq!(m.m33, 1000);
}

#[test]
fn vertex_shader_centers_origin() {
    let u = uniforms_for(100, 100, 0);
    let v = model_vertex(0, 0, 0);
    let t = vertex_shader(&v, &u);
    // NDC origin lands at the center of a 100-pixel viewport, y flipped
    assert_eq!(t.transformed_position, Vec3Fx { x: 50_000, y: 50_000, z: 0 });
    assert_eq!(t.position, v.position);
    assert_eq!(t.normal, v.normal);
}

#[test]
fn vertex_shader_flips_y() {
    let u = uniforms_for(100, 100, 0);
    // NDC y = +1 (one unit up) maps to the top of the frame: pixel y 0
    let t = vertex_shader(&model_vertex(0, 1000, 0), &u);
    assert_eq!(t.transformed_position.y, 0);
    let b = vertex_shader(&model_vertex(0, -1000, 0), &u);
    assert_eq!(b.transformed_position.y, 100_000);
}

#[test]
fn vertex_shader_identity_model_keeps_normal() {
    let u = uniforms_for(100, 100, 0);
    let v = Vertex::new(
        Vec3Fx { x: 0, y: 0, z: 0 },
        Vec3Fx { x: 300, y: -400, z: 500 },
        Vec2Fx { x: 0, y: 0 },
        Color::black(),
    );
    let t = vertex_shader(&v, &u);
    assert_eq!(t.transformed_normal, Vec3Fx { x: 300, y: -400, z: 500 });
}

#[test]
fn vertex_shader_degenerate_model_falls_back_to_identity_normal() {
    let mut u = uniforms_for(100, 100, 0);
    // zero out the model matrix's upper-left block: no inverse exists
    u.model_matrix.m00 = 0;
    u.model_matrix.m11 = 0;
    u.model_matrix.m22 = 0;
    let v = Vertex::new(
        Vec3Fx { x: 0, y: 0, z: 0 },
        Vec3Fx { x: 700, y: 100, z: -200 },
        Vec2Fx { x: 0, y: 0 },
        Color::black(),
    );
    let t = vertex_shader(&v, &u);
    // the identity normal matrix keeps the normal unchanged
    assert_eq!(t.transformed_normal, Vec3Fx { x: 700, y: 100, z: -200 });
}

#[test]
fn transform_vertices_maps_every_vertex() {
    let u = uniforms_for(100, 100, 0);
    let vs = vec![model_vertex(0, 0, 0), model_vertex(500, 0, 0), model_vertex(0, 500, 0)];
    let out = transform_vertices(&u, &vs);
    assert_eq!(out.len(), 3);
    for (raw, t) in vs.iter().zip(out.iter()) {
        assert_eq!(t.position, raw.position);
        assert_eq!(vertex_shader(raw, &u), *t);
    }
}

#[test]
fn trailing_vertices_are_dropped() {
    // a list with two leftover vertices renders exactly like its
    // whole-triangle prefix: same fragments, same final frame
    let u = uniforms_for(100, 100, 0);
    let vs = vec![
        model_vertex(0, 0, 0),
        model_vertex(500, 0, 0),
        model_vertex(0, 500, 0),
        model_vertex(0, -500, 0),
        model_vertex(-500, 0, 0),
    ];
    let light = Vec3Fx { x: 0, y: 0, z: 1000 };
    let tv = transform_vertices(&u, &vs);
    let frags_all = rasterize_triangles(&tv, 100, 100, &light);
    let tv3 = transform_vertices(&u, &vs[0..3].to_vec());
    let frags_first = rasterize_triangles(&tv3, 100, 100, &light);
    assert_eq!(frags_all, frags_first);
    let mut fb_all = Framebuffer::new(100, 100);
    fb_all.clear();
    let replies_all: Vec<NoiseReply> = frags_all.iter().map(|_| NoiseReply::Nothing).collect();
    shade_and_commit(&mut fb_all, &u, ShaderKind::StaticPattern, &frags_all, &replies_all);
    let mut fb_first = Framebuffer::new(100, 100);
    fb_first.clear();
    let replies_first: Vec<NoiseReply> =
        frags_first.iter().map(|_| NoiseReply::Nothing).collect();
    shade_and_commit(&mut fb_first, &u, ShaderKind::StaticPattern, &frags_first, &replies_first);
    assert_eq!(fb_all.buffer, fb_first.buffer);
    assert_eq!(fb_all.zbuffer, fb_first.zbuffer);
}

#[test]
fn end_to_end_render_writes_pixels_and_depth() {
    let width: usize = 100;
    let height: usize = 100;
    let u = uniforms_for(width as i64, height as i64, 0);
    // a triangle covering the upper-left of the NDC square
    let vs = vec![
        model_vertex(-1000, 1000, 0),
        model_vertex(1000, 1000, 0),
        model_vertex(-1000, -1000, 0),
    ];
    let mut fb = Framebuffer::new(width, height);
    fb.set_background_color(Color::new(0x33, 0x33, 0x55));
    fb.clear();
    let tv = transform_vertices(&u, &vs);
    let light = Vec3Fx { x: 0, y: 0, z: 1000 };
    let frags = rasterize_triangles(&tv, width, height, &light);
    assert!(!frags.is_empty());
    let replies: Vec<NoiseReply> = frags.iter().map(|_| NoiseReply::Nothing).collect();
    shade_and_commit(&mut fb, &u, ShaderKind::StaticPattern, &frags, &replies);
    // a pixel well inside the triangle was shaded and its depth committed
    let idx = 10 * width + 10;
    assert_ne!(fb.buffer[idx], Color::new(0x33, 0x33, 0x55));
    assert_ne!(fb.zbuffer[idx], DEPTH_INF);
    // a pixel outside kept the background
    let out_idx = 99 * width + 99;
    assert_eq!(fb.buffer[out_idx], Color::new(0x33, 0x33, 0x55));
    assert_eq!(fb.zbuffer[out_idx], DEPTH_INF);
}

#[test]
fn spot_shading_with_real_noise() {
    // sample the spot shader's requested points with a real noise generator
    let width: usize = 20;
    let height: usize = 20;
    let u = uniforms_for(width as i64, height as i64, 0);
    let vs = vec![
        model_vertex(-1000, 1000, 0),
        model_vertex(1000, 1000, 0),
        model_vertex(-1000, -1000, 0),
    ];
    let mut noise = FastNoiseLite::with_seed(1337);
    noise.set_noise_type(Some(NoiseType::OpenSimplex2));
    let mut fb = Framebuffer::new(width, height);
    fb.clear();
    let tv = transform_vertices(&u, &vs);
    let light = Vec3Fx { x: 0, y: 0, z: 1000 };
    let frags = rasterize_triangles(&tv, width, height, &light);
    let replies: Vec<NoiseReply> = frags
        .iter()
        .map(|f| match noise_request(ShaderKind::Dalmata, f, &u) {
            NoiseRequest::Plane(x, y) => {
                let n = noise.get_noise_2d(x as f32 / 1000.0, y as f32 / 1000.0);
                NoiseReply::One(((n * 1000.0) as i64).clamp(-1000, 1000))
            }
            _ => NoiseReply::Nothing,
        })
        .collect();
    shade_and_commit(&mut fb, &u, ShaderKind::Dalmata, &frags, &replies);
    // every committed pixel is a scaled white or scaled black
    for f in &frags {
        let c = fb.buffer[f.y * width + f.x];
        assert!(c.r == c.g && c.g == c.b);
    }
}

#[test]
fn commit_keeps_closest_fragment() {
    // three fragments at the same pixel, depths 2.0 then 1.0 then 3.0:
    // the middle one wins whatever the submission order
    let u = uniforms_for(10, 10, 0);
    let frag_at = |depth: i64, intensity: i64| Fragment {
        x: 5,
        y: 5,
        depth,
        color: Color::black(),
        normal: Vec3Fx { x: 0, y: 0, z: 1000 },
        intensity,
        vertex_position: Vec3Fx { x: 0, y: 0, z: 0 },
    };
    let frags = vec![frag_at(2000, 1000), frag_at(1000, 500), frag_at(3000, 250)];
    let replies = vec![NoiseReply::One(-1000); 3];
    let mut fb = Framebuffer::new(10, 10);
    fb.clear();
    shade_and_commit(&mut fb, &u, ShaderKind::Dalmata, &frags, &replies);
    // the second fragment shades white at half intensity
    assert_eq!(fb.buffer[5 * 10 + 5], Color::new(127, 127, 127));
    assert_eq!(fb.zbuffer[5 * 10 + 5], 1000);
}

#[test]
fn degenerate_projection_skips_divide() {
    // a projection with a zero bottom row makes the homogeneous component
    // zero; the stage recovers by using the clip coordinates directly
    let mut u = uniforms_for(100, 100, 0);
    u.projection_matrix.m33 = 0;
    let t = vertex_shader(&model_vertex(123, -456, 789), &u);
    assert_eq!(
        t.transformed_position,
        Vec3Fx { x: 123, y: -456, z: 789 }
    );
}

#[test]
fn texture_new_validates_sizes() {
    assert!(Texture::new(0, 4, vec![]).is_none());
    assert!(Texture::new(2, 2, vec![Color::black(); 3]).is_none());
    let t = Texture::new(2, 2, vec![Color::black(); 4]);
    assert!(t.is_some());
}

#[test]
fn texture_sampling_rounds_to_nearest() {
    let pixels = vec![
        Color::new(1, 0, 0),
        Color::new(2, 0, 0),
        Color::new(3, 0, 0),
        Color::new(4, 0, 0),
    ];
    let t = Texture::new(2, 2, pixels).unwrap();
    assert_eq!(t.get_pixel(0, 0), Color::new(1, 0, 0));
    assert_eq!(t.get_pixel(1, 1), Color::new(4, 0, 0));
    assert_eq!(t.sample(0, 0), Color::new(1, 0, 0));
    assert_eq!(t.sample(1000, 1000), Color::new(4, 0, 0));
    // u = 0.5 rounds up to the second column; clamping pulls u = 2.0 back to 1
    assert_eq!(t.sample(500, 0), Color::new(2, 0, 0));
    assert_eq!(t.sample(2000, -100), Color::new(2, 0, 0));
}

#[test]
fn skybox_fills_buffer_from_texture() {
    let pixels = vec![
        Color::new(1, 0, 0),
        Color::new(2, 0, 0),
        Color::new(3, 0, 0),
        Color::new(4, 0, 0),
    ];
    let t = Texture::new(2, 2, pixels).unwrap();
    let mut fb = Framebuffer::new(4, 4);
    fb.draw_skybox(&t);
    // the top-left quadrant of the frame maps to the first texel
    assert_eq!(fb.buffer[0], Color::new(1, 0, 0));
    // every depth stays untouched
    assert_eq!(fb.zbuffer[0], DEPTH_INF);
}

use softrender::color::Color;
use softrender::fragment::Fragment;
use softrender::geom::{Vec2Fx, Vec3Fx};
use softrender::raster::triangle;
use softrender::vertex::Vertex;

fn screen_vertex(x: i64, y: i64, z: i64, color: Color) -> Vertex {
    // a vertex already in screen space (coordinates in thousandths of a pixel)
    Vertex {
        position: Vec3Fx { x: 0, y: 0, z: 0 },
        normal: Vec3Fx { x: 0, y: 0, z: 1000 },
        tex_coords: Vec2Fx { x: 0, y: 0 },
        color,
        transformed_position: Vec3Fx { x, y, z },
        transformed_normal: Vec3Fx { x: 0, y: 0, z: 1000 },
    }
}

fn light() -> Vec3Fx {
    Vec3Fx { x: 0, y: 0, z: 1000 }
}

fn find(frags: &[Fragment], x: usize, y: usize) -> Option<Fragment> {
    frags.iter().find(|f| f.x == x && f.y == y).copied()
}

#[test]
fn emits_inside_pixel_with_interpolated_depth() {
    // triangle A=(0,0,0), B=(10,0,0), C=(0,10,0) in screen space, uniform depth 1.0
    let a = screen_vertex(0, 0, 1000, Color::new(255, 0, 0));
    let b = screen_vertex(10_000, 0, 1000, Color::new(0, 255, 0));
    let c = screen_vertex(0, 10_000, 1000, Color::new(0, 0, 255));
    let frags = triangle(&a, &b, &c, 100, 100, &light());
    let f = find(&frags, 1, 1).expect("pixel (1,1) lies inside the triangle");
    assert_eq!(f.depth, 1000);
    assert!(find(&frags, 20, 20).is_none());
}

#[test]
fn no_fragment_outside_triangle() {
    let a = screen_vertex(0, 0, 1000, Color::black());
    let b = screen_vertex(10_000, 0, 1000, Color::black());
    let c = screen_vertex(0, 10_000, 1000, Color::black());
    let frags = triangle(&a, &b, &c, 100, 100, &light());
    for f in &frags {
        // inside pixels satisfy x + y <= 10 for this right triangle
        assert!(f.x + f.y <= 10);
    }
}

#[test]
fn degenerate_coincident_vertices_emit_nothing() {
    let v = screen_vertex(5_000, 5_000, 1000, Color::black());
    let frags = triangle(&v, &v, &v, 100, 100, &light());
    assert_eq!(frags.len(), 0);
}

#[test]
fn degenerate_collinear_vertices_emit_nothing() {
    let a = screen_vertex(0, 0, 1000, Color::black());
    let b = screen_vertex(5_000, 0, 1000, Color::black());
    let c = screen_vertex(10_000, 0, 1000, Color::black());
    let frags = triangle(&a, &b, &c, 100, 100, &light());
    assert_eq!(frags.len(), 0);
}

#[test]
fn vertex_pixel_takes_vertex_attributes() {
    let a = screen_vertex(0, 0, 2000, Color::new(200, 40, 60));
    let b = screen_vertex(8_000, 0, 4000, Color::new(0, 0, 0));
    let c = screen_vertex(0, 8_000, 6000, Color::new(0, 0, 0));
    let frags = triangle(&a, &b, &c, 100, 100, &light());
    let f = find(&frags, 0, 0).expect("the corner pixel is inside");
    assert_eq!(f.depth, 2000);
    assert_eq!(f.color, Color::new(200, 40, 60));
}

#[test]
fn depth_interpolates_between_vertices() {
    let a = screen_vertex(0, 0, 0, Color::black());
    let b = screen_vertex(10_000, 0, 10_000, Color::black());
    let c = screen_vertex(0, 10_000, 0, Color::black());
    let frags = triangle(&a, &b, &c, 100, 100, &light());
    let f = find(&frags, 5, 0).expect("midpoint of the bottom edge is inside");
    assert_eq!(f.depth, 5000);
}

#[test]
fn clips_to_target_size() {
    let a = screen_vertex(0, 0, 1000, Color::black());
    let b = screen_vertex(50_000, 0, 1000, Color::black());
    let c = screen_vertex(0, 50_000, 1000, Color::black());
    let frags = triangle(&a, &b, &c, 4, 4, &light());
    for f in &frags {
        assert!(f.x < 4 && f.y < 4);
    }
    assert!(find(&frags, 3, 3).is_some());
    assert!(!frags.is_empty());
}

#[test]
fn facing_normal_gives_full_intensity() {
    // normal equal to the light direction: cosine 1, intensity 1000
    let a = screen_vertex(0, 0, 1000, Color::black());
    let b = screen_vertex(4_000, 0, 1000, Color::black());
    let c = screen_vertex(0, 4_000, 1000, Color::black());
    let frags = triangle(&a, &b, &c, 10, 10, &light());
    let f = find(&frags, 0, 0).expect("corner inside");
    assert_eq!(f.intensity, 1000);
}

#[test]
fn fragments_come_in_row_major_order() {
    let a = screen_vertex(0, 0, 1000, Color::black());
    let b = screen_vertex(6_000, 0, 1000, Color::black());
    let c = screen_vertex(0, 6_000, 1000, Color::black());
    let frags = triangle(&a, &b, &c, 10, 10, &light());
    for w in frags.windows(2) {
        assert!(w[0].y < w[1].y || (w[0].y == w[1].y && w[0].x < w[1].x));
    }
}

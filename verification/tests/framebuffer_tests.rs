use softrender::color::Color;
use softrender::framebuffer::{Framebuffer, DEPTH_INF};

fn pixel(fb: &Framebuffer, x: usize, y: usize) -> Color {
    fb.buffer[y * fb.width + x]
}

#[test]
fn new_starts_black_and_far() {
    let fb = Framebuffer::new(4, 3);
    assert_eq!(fb.width, 4);
    assert_eq!(fb.height, 3);
    assert_eq!(fb.buffer.len(), 12);
    assert_eq!(fb.zbuffer.len(), 12);
    for i in 0..12 {
        assert_eq!(fb.buffer[i], Color::black());
        assert_eq!(fb.zbuffer[i], DEPTH_INF);
    }
}

#[test]
fn depth_test_closest_wins_regardless_of_order() {
    // three submissions at the same pixel: depths 2.0, then 1.0, then 3.0;
    // the committed color must be the second fragment's.
    let mut fb = Framebuffer::new(10, 10);
    fb.point(5, 5, 2000, Color::new(200, 0, 0));
    fb.point(5, 5, 1000, Color::new(0, 200, 0));
    fb.point(5, 5, 3000, Color::new(0, 0, 200));
    assert_eq!(pixel(&fb, 5, 5), Color::new(0, 200, 0));
    assert_eq!(fb.zbuffer[5 * 10 + 5], 1000);
}

#[test]
fn point_out_of_bounds_is_silent() {
    let mut fb = Framebuffer::new(4, 4);
    fb.point(4, 0, 0, Color::new(1, 1, 1));
    fb.point(0, 4, 0, Color::new(1, 1, 1));
    fb.point(1000, 1000, 0, Color::new(1, 1, 1));
    for i in 0..16 {
        assert_eq!(fb.buffer[i], Color::black());
        assert_eq!(fb.zbuffer[i], DEPTH_INF);
    }
}

#[test]
fn point_equal_depth_does_not_overwrite() {
    let mut fb = Framebuffer::new(2, 2);
    fb.point(0, 0, 500, Color::new(9, 9, 9));
    fb.point(0, 0, 500, Color::new(1, 1, 1));
    assert_eq!(pixel(&fb, 0, 0), Color::new(9, 9, 9));
}

#[test]
fn point_with_color_skips_depth_test() {
    let mut fb = Framebuffer::new(2, 2);
    fb.point(0, 0, 100, Color::new(9, 9, 9));
    fb.point_with_color(0, 0, Color::new(7, 7, 7));
    assert_eq!(pixel(&fb, 0, 0), Color::new(7, 7, 7));
    // the depth grid is untouched by the overlay write
    assert_eq!(fb.zbuffer[0], 100);
}

#[test]
fn clear_resets_colors_and_depths() {
    let mut fb = Framebuffer::new(3, 3);
    fb.set_background_color(Color::new(0x33, 0x33, 0x55));
    fb.point(1, 1, 10, Color::new(200, 200, 200));
    fb.clear();
    for i in 0..9 {
        assert_eq!(fb.buffer[i], Color::new(0x33, 0x33, 0x55));
        assert_eq!(fb.zbuffer[i], DEPTH_INF);
    }
    // a subsequent write at any pixel passes the depth test
    for y in 0..3 {
        for x in 0..3 {
            let mut copy = Framebuffer::new(3, 3);
            copy.set_background_color(Color::new(0x33, 0x33, 0x55));
            copy.clear();
            copy.point(x, y, 999_999_999, Color::new(1, 2, 3));
            assert_eq!(pixel(&copy, x, y), Color::new(1, 2, 3));
        }
    }
}

#[test]
fn draw_line_horizontal_fills_exact_pixels() {
    // from (0,0) to (5,0): exactly the six pixels (0,0)..(5,0), no others
    let mut fb = Framebuffer::new(10, 10);
    fb.draw_line(0, 0, 5, 0, 0xFF0000);
    for y in 0..10 {
        for x in 0..10 {
            if y == 0 && x <= 5 {
                assert_eq!(pixel(&fb, x, y), Color::new(255, 0, 0));
            } else {
                assert_eq!(pixel(&fb, x, y), Color::black());
            }
        }
    }
}

#[test]
fn draw_line_diagonal_and_reverse() {
    let mut fb = Framebuffer::new(5, 5);
    fb.draw_line(4, 4, 0, 0, 0xFFFFFF);
    for i in 0..5 {
        assert!(fb.is_point_set(i, i));
    }
    assert!(!fb.is_point_set(0, 1));
}

#[test]
fn draw_line_clips_outside_pixels() {
    let mut fb = Framebuffer::new(3, 3);
    fb.draw_line(0, 0, 6, 0, 0xFFFFFF);
    assert!(fb.is_point_set(0, 0));
    assert!(fb.is_point_set(2, 0));
    assert!(!fb.is_point_set(2, 1));
}

#[test]
fn draw_rectangle_fills_block_without_depth() {
    let mut fb = Framebuffer::new(6, 6);
    fb.draw_rectangle(1, 2, 3, 2, Color::new(5, 6, 7));
    for y in 0..6 {
        for x in 0..6 {
            if (1..4).contains(&x) && (2..4).contains(&y) {
                assert_eq!(pixel(&fb, x, y), Color::new(5, 6, 7));
            } else {
                assert_eq!(pixel(&fb, x, y), Color::black());
            }
        }
    }
    for i in 0..36 {
        assert_eq!(fb.zbuffer[i], DEPTH_INF);
    }
}

#[test]
fn draw_rectangle_clips_to_grid() {
    let mut fb = Framebuffer::new(3, 3);
    fb.draw_rectangle(2, 2, 5, 5, Color::new(8, 8, 8));
    assert_eq!(pixel(&fb, 2, 2), Color::new(8, 8, 8));
    assert_eq!(pixel(&fb, 1, 1), Color::black());
}

#[test]
fn to_u32_buffer_packs_pixels() {
    let mut fb = Framebuffer::new(2, 1);
    fb.point_with_color(0, 0, Color::new(0x12, 0x34, 0x56));
    fb.point_with_color(1, 0, Color::new(0xAB, 0xCD, 0xEF));
    let packed = fb.to_u32_buffer();
    assert_eq!(packed, vec![0x123456, 0xABCDEF]);
}

#[test]
fn is_point_set_detects_white_only() {
    let mut fb = Framebuffer::new(2, 2);
    fb.point_with_color(0, 0, Color::new(255, 255, 255));
    fb.point_with_color(1, 0, Color::new(254, 255, 255));
    assert!(fb.is_point_set(0, 0));
    assert!(!fb.is_point_set(1, 0));
    assert!(!fb.is_point_set(5, 5));
}

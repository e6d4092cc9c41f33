use pirates::raster::{
    draw_tri, shade, PixelBuffer, GROUND_COLOR, SHALLOW_COLOR, SUBPIXEL, WATER_COLOR,
};
use pirates::{HEIGHT, WIDTH};

fn px(x: i64, y: i64) -> (i64, i64) {
    (x * SUBPIXEL, y * SUBPIXEL)
}

#[test]
fn buffer_starts_zeroed() {
    let buffer = PixelBuffer::new();
    assert_eq!(buffer.get(0, 0), 0);
    assert_eq!(buffer.get(WIDTH - 1, HEIGHT - 1), 0);
    assert_eq!(buffer.get(80, 72), 0);
}

#[test]
fn buffer_set_then_get() {
    let mut buffer = PixelBuffer::new();
    buffer.set(3, 2, 0xAABBCCDD);
    assert_eq!(buffer.get(3, 2), 0xAABBCCDD);
    assert_eq!(buffer.get(2, 3), 0);
}

#[test]
fn palette_bands() {
    assert_eq!(GROUND_COLOR, 0xFF00_FF00);
    assert_eq!(SHALLOW_COLOR, 0xFF44_FF44);
    assert_eq!(WATER_COLOR, 0xFFFF_3333);
}

#[test]
fn shade_adds_doubled_step_one_byte_up() {
    assert_eq!(shade(GROUND_COLOR, 0), GROUND_COLOR);
    assert_eq!(shade(GROUND_COLOR, 3), 0xFF010500);
    assert_eq!(shade(SHALLOW_COLOR, 0), SHALLOW_COLOR);
}

#[test]
fn shade_wraps_like_packed_addition() {
    assert_eq!(shade(WATER_COLOR, 0x00FF_FFFF), 0xFFFF3133);
}

#[test]
fn triangle_paints_centroid() {
    let mut buffer = PixelBuffer::new();
    let color = 0xFF648CBA;
    draw_tri(color, &mut buffer, px(10, 10), px(20, 10), px(15, 18));
    // the centroid of (10, 10), (20, 10), (15, 18) lies in pixel (15, 12)
    assert_eq!(buffer.get(15, 12), color);
}

#[test]
fn triangle_fill_probes() {
    let mut buffer = PixelBuffer::new();
    let color = 0xFFDDDDDD;
    draw_tri(color, &mut buffer, px(10, 10), px(20, 10), px(15, 18));
    for (x, y, hit) in [
        (15, 10, true),
        (10, 10, true),
        (11, 11, true),
        (19, 10, true),
        (15, 17, true),
        (9, 10, false),   // left of the bounding box
        (12, 16, false),  // inside the box, outside the triangle
        (20, 14, false),  // the box's own edge column is exclusive
    ] {
        assert_eq!(buffer.get(x, y) == color, hit, "pixel ({x}, {y})");
    }
}

#[test]
fn triangle_never_writes_outside_bounding_box() {
    let mut buffer = PixelBuffer::new();
    let color = 0xFF648CBA;
    draw_tri(color, &mut buffer, px(10, 10), px(20, 10), px(15, 18));
    for y in 0..HEIGHT {
        for x in 0..WIDTH {
            if !(10..20).contains(&x) || !(10..18).contains(&y) {
                assert_eq!(buffer.get(x, y), 0, "pixel ({x}, {y})");
            }
        }
    }
}

#[test]
fn triangle_clips_to_screen() {
    let mut buffer = PixelBuffer::new();
    let color = 0xFF112233;
    draw_tri(color, &mut buffer, px(-10, -5), px(5, -2), px(2, 8));
    for (x, y, hit) in [
        (0, 0, true),
        (1, 3, true),
        (4, 0, true),
        (0, 7, false),
        (3, 5, false),
    ] {
        assert_eq!(buffer.get(x, y) == color, hit, "pixel ({x}, {y})");
    }
}

#[test]
fn overlapping_fills_keep_last_color() {
    let mut buffer = PixelBuffer::new();
    draw_tri(0xFF0000FF, &mut buffer, px(10, 10), px(20, 10), px(15, 18));
    draw_tri(0xFF00FF00, &mut buffer, px(10, 10), px(20, 10), px(15, 18));
    assert_eq!(buffer.get(15, 12), 0xFF00FF00);
}

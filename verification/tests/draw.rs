use bimberz::drawing::color::Color;
use bimberz::drawing::pixelbuffer::{DrawMode, PixelBuffer};
use bimberz::drawing::shapes::circle::Circle;
use bimberz::drawing::shapes::coloring::IntoColored;
use bimberz::drawing::shapes::composite::ShapeDiff;
use bimberz::drawing::shapes::rect::RectShape;
use bimberz::drawing::shapes::transf::IntoTransformed;
use bimberz::math::vector::vec2;

const UNIT: i64 = 256;

fn black() -> Color {
    Color::new(0, 0, 0, 255)
}

fn white() -> Color {
    Color::new(255, 255, 255, 255)
}

#[test]
fn filled_circle_at_canvas_center() {
    let mut canvas = PixelBuffer::new(100, 100);
    let shape = Circle::new(10).moved(vec2(50 * UNIT, 50 * UNIT));
    canvas.draw(&shape, DrawMode::Filled);
    assert_eq!(canvas.get_pixel(50, 50), white());
    assert_eq!(canvas.get_pixel(50, 65), black());
}

#[test]
fn union_paints_overlap_once_with_no_blend() {
    let shape = bimberz::drawing::shapes::composite::ShapeUnion {
        a: Circle::new(5).moved(vec2(10 * UNIT, 10 * UNIT)),
        b: Circle::new(5).moved(vec2(18 * UNIT, 10 * UNIT)),
    };
    let mut canvas = PixelBuffer::new(30, 30);
    canvas.draw(&shape, DrawMode::Filled);
    // (14, 10) lies inside both circles; it is plain white, not blended.
    assert_eq!(canvas.get_pixel(14, 10), white());
}

#[test]
fn diff_carves_a_notch_out_of_a_bar() {
    // A bar of half extent (40, 5) minus a circle of radius 8 centered on
    // the bar's right edge midpoint, all moved to the canvas center.
    let bar = RectShape::new(vec2(80u32, 10u32));
    let notch = Circle::new(8).moved(vec2(40 * UNIT, 0));
    let shape = ShapeDiff { a: bar, b: notch }.moved(vec2(50 * UNIT, 50 * UNIT));
    let mut canvas = PixelBuffer::new(100, 100);
    canvas.draw(&shape, DrawMode::Filled);
    // The bar's center stays painted; the notch center is not painted.
    assert_eq!(canvas.get_pixel(50, 50), white());
    assert_eq!(canvas.get_pixel(90, 50), black());
}

#[test]
fn stroke_mode_paints_only_the_band() {
    let shape = Circle::new(10).stroked(2).moved(vec2(50 * UNIT, 50 * UNIT));
    let mut canvas = PixelBuffer::new(100, 100);
    canvas.draw(&shape, DrawMode::Stroke);
    // Distance 9 and 11 from the center lie in the band; 5 does not.
    assert_eq!(canvas.get_pixel(59, 50), white());
    assert_eq!(canvas.get_pixel(61, 50), white());
    assert_eq!(canvas.get_pixel(55, 50), black());
}

#[test]
fn shape_outside_the_frame_paints_nothing() {
    let mut canvas = PixelBuffer::new(16, 16);
    let shape = Circle::new(5).moved(vec2(-100 * UNIT, -100 * UNIT));
    canvas.draw(&shape, DrawMode::Filled);
    for y in 0..16 {
        for x in 0..16 {
            assert_eq!(canvas.get_pixel(x, y), black());
        }
    }
}

#[test]
fn draw_shape_fills_like_filled_mode() {
    let mut a = PixelBuffer::new(24, 24);
    let mut b = PixelBuffer::new(24, 24);
    let shape = Circle::new(6).moved(vec2(12 * UNIT, 12 * UNIT));
    a.draw_shape(shape);
    b.draw(&shape, DrawMode::Filled);
    for y in 0..24 {
        for x in 0..24 {
            assert_eq!(a.get_pixel(x, y), b.get_pixel(x, y));
        }
    }
}

#[test]
fn painting_respects_the_half_pixel_threshold() {
    // A circle of radius 10: the pixel at distance 10 has distance zero
    // and is painted; at distance 11 it is a whole pixel out.
    let mut canvas = PixelBuffer::new(40, 40);
    let shape = Circle::new(10).moved(vec2(20 * UNIT, 20 * UNIT));
    canvas.draw(&shape, DrawMode::Filled);
    assert_eq!(canvas.get_pixel(30, 20), white());
    assert_eq!(canvas.get_pixel(31, 20), black());
}

#[test]
fn clear_resize_put_get_round_trip() {
    let mut canvas = PixelBuffer::new(8, 8);
    assert_eq!(canvas.width(), 8);
    assert_eq!(canvas.height(), 8);
    let red = Color::new(255, 0, 0, 255);
    canvas.clear(red);
    assert_eq!(canvas.get_pixel(7, 7), red);
    canvas.put_pixel(3, 2, white());
    assert_eq!(canvas.get_pixel(3, 2), white());
    assert_eq!(canvas.get_pixel(2, 3), red);
    canvas.resize(4, 4);
    assert_eq!(canvas.width(), 4);
    assert_eq!(canvas.height(), 4);
    let fr = canvas.frame_rect();
    assert_eq!((fr.top_left.x, fr.top_left.y), (0, 0));
    assert_eq!((fr.bot_right.x, fr.bot_right.y), (3, 3));
}

#[test]
fn colored_shape_paints_in_its_color() {
    let green = Color::new(0, 255, 0, 255);
    let shape = Circle::new(4).colored(green).moved(vec2(8 * UNIT, 8 * UNIT));
    let mut canvas = PixelBuffer::new(16, 16);
    canvas.draw(&shape, DrawMode::Filled);
    assert_eq!(canvas.get_pixel(8, 8), green);
    assert_eq!(canvas.get_pixel(0, 0), black());
}

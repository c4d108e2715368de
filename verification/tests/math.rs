use bimberz::engine::color::Color as EngineColor;
use bimberz::math::rect::{rect, Rect};
use bimberz::math::transf::Transform;
use bimberz::math::vector::{vec2, Vec2};

const UNIT: i64 = 256;

#[test]
fn vector_componentwise_arithmetic() {
    let a: Vec2<i32> = vec2(3, -4);
    let b: Vec2<i32> = vec2(1, 2);
    assert_eq!(a.add(b), vec2(4, -2));
    assert_eq!(a.sub(b), vec2(2, -6));
    assert_eq!(a.neg(), vec2(-3, 4));
    assert_eq!(a.abs(), vec2(3, 4));
    assert_eq!(a.dot(b), -5);
    assert_eq!(a.len_sq(), 25);
    assert_eq!(a.mul(2), vec2(6, -8));
    assert_eq!(vec2(7, 4).div(2), vec2(3, 2));
    assert_eq!(vec2(-7, 5).div(2), vec2(-3, 2));
    assert_eq!(vec2(-7, 5).div(-2), vec2(3, -2));
}

#[test]
fn vector_ordering_operations() {
    let a: Vec2<i32> = vec2(3, -4);
    let b: Vec2<i32> = vec2(1, 2);
    assert_eq!(a.max(b), vec2(3, 2));
    assert_eq!(a.min(b), vec2(1, -4));
    assert_eq!(vec2(5, -9).clamp(vec2(0, 0), vec2(4, 4)), vec2(4, 0));
    let u: Vec2<u32> = vec2(7u32, 9u32);
    assert_eq!(u.to_sign(), vec2(7, 9));
}

#[test]
fn pixel_and_subunit_conversions() {
    let p: Vec2<i32> = vec2(3, -2);
    let f = p.to_fixed();
    assert_eq!((f.x, f.y), (3 * UNIT, -2 * UNIT));
    // Rounding to the nearest pixel; half-ties go away from zero.
    assert_eq!(vec2(3 * UNIT + 127, -2 * UNIT).to_int(), vec2(3, -2));
    assert_eq!(vec2(3 * UNIT + 128, 2 * UNIT + 129).to_int(), vec2(4, 3));
    assert_eq!(vec2(-2 * UNIT - 128, -UNIT - 127).to_int(), vec2(-3, -1));
    assert_eq!(vec2(-128, 128).to_int(), vec2(-1, 1));
}

#[test]
fn rect_combine_and_intersection() {
    let a: Rect<i32> = rect(vec2(-5, -5), vec2(5, 5));
    let b: Rect<i32> = rect(vec2(3, -5), vec2(13, 5));
    let u = a.combine(b);
    assert_eq!((u.top_left.x, u.top_left.y), (-5, -5));
    assert_eq!((u.bot_right.x, u.bot_right.y), (13, 5));
    let i = a.intersection(b);
    assert_eq!((i.top_left.x, i.top_left.y), (3, -5));
    assert_eq!((i.bot_right.x, i.bot_right.y), (5, 5));
    // Disjoint rectangles intersect to an empty rectangle: a corner of
    // top_left beyond bot_right, which callers treat as nothing.
    let c: Rect<i32> = rect(vec2(20, 0), vec2(30, 5));
    let e = a.intersection(c);
    assert!(e.top_left.x > e.bot_right.x);
}

#[test]
fn transform_constructors_fill_the_parts() {
    let t = Transform::identity();
    assert_eq!((t.translation.x, t.translation.y), (0, 0));
    assert_eq!((t.rot_sin, t.rot_cos), (0, UNIT));
    assert_eq!((t.scale.x, t.scale.y), (UNIT, UNIT));

    let m = Transform::mov(vec2(3 * UNIT, 4 * UNIT));
    assert_eq!((m.translation.x, m.translation.y), (3 * UNIT, 4 * UNIT));

    let r = Transform::rot(UNIT, 0);
    assert_eq!((r.rot_sin, r.rot_cos), (UNIT, 0));

    let s = Transform::uscale(2 * UNIT);
    assert_eq!((s.scale.x, s.scale.y), (2 * UNIT, 2 * UNIT));
}

#[test]
fn apply_test() {
    // A position one pixel right and up, through a transform that scales
    // five-fold in x, turns a quarter turn, and moves ten pixels down the
    // y axis; then back again through the analytic inverse.
    let t_pos = vec2(UNIT, UNIT);
    let transf = Transform::mov_rot_scale(vec2(0, 10 * UNIT), UNIT, 0, vec2(5 * UNIT, UNIT));
    let t_transf = transf.apply_to_pos(t_pos);
    assert_eq!((t_transf.x, t_transf.y), (-UNIT, 10 * UNIT + 5 * UNIT));
    let t_inv_transf = transf.apply_inv_to_pos(t_transf);
    assert_eq!((t_inv_transf.x, t_inv_transf.y), (UNIT, UNIT));
}

#[test]
fn apply_to_dir_omits_translation() {
    let transf = Transform::mov(vec2(10 * UNIT, 10 * UNIT));
    let d = transf.apply_to_dir(vec2(3 * UNIT, -4 * UNIT));
    assert_eq!((d.x, d.y), (3 * UNIT, -4 * UNIT));
    let i = transf.apply_inv_to_dir(vec2(3 * UNIT, -4 * UNIT));
    assert_eq!((i.x, i.y), (3 * UNIT, -4 * UNIT));
}

#[test]
fn engine_color_average() {
    let a = EngineColor::new(200, 100, 50, 255);
    let b = EngineColor::new(100, 50, 0, 255);
    let avg = a.avg_with(b);
    assert_eq!((avg.r, avg.g, avg.b, avg.a), (150, 75, 25, 254));
}

#[test]
fn drawing_color_constructors() {
    let c = bimberz::drawing::color::Color::new(1, 2, 3, 4);
    assert_eq!((c.r, c.g, c.b, c.a), (1, 2, 3, 4));
    let k = bimberz::drawing::color::Color::black();
    assert_eq!((k.r, k.g, k.b, k.a), (0, 0, 0, 255));
    let w = bimberz::drawing::color::Color::white();
    assert_eq!((w.r, w.g, w.b, w.a), (255, 255, 255, 255));
}

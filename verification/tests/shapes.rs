use bimberz::drawing::shapes::circle::Circle;
use bimberz::drawing::shapes::coloring::{IntoColored, StrokedShape};
use bimberz::drawing::color::Color;
use bimberz::drawing::shapes::composite::{
    ShapeDiff, ShapeExtend, ShapeIntersect, ShapeInvert, ShapeUnion,
};
use bimberz::drawing::shapes::rect::RectShape;
use bimberz::drawing::shapes::shape::Shape;
use bimberz::drawing::shapes::transf::{IntoTransformed, TransformedShape};
use bimberz::math::transf::Transform;
use bimberz::math::vector::vec2;

// Distances are in subunits of 1/256 pixel.
const UNIT: i64 = 256;

#[test]
fn circle_distance_on_boundary_and_center() {
    let c = Circle::new(5);
    assert_eq!(c.frag(vec2(5, 0)).dist, 0);
    assert_eq!(c.frag(vec2(0, 0)).dist, -5 * UNIT);
    assert_eq!(c.frag(vec2(0, 5)).dist, 0);
    assert_eq!(c.frag(vec2(10, 0)).dist, 5 * UNIT);
}

#[test]
fn circle_bounding_box_is_radius_square() {
    let c = Circle::new(7);
    let bb = c.bounding_box();
    assert_eq!((bb.top_left.x, bb.top_left.y), (-7, -7));
    assert_eq!((bb.bot_right.x, bb.bot_right.y), (7, 7));
}

#[test]
fn box_distance_on_corner_and_center() {
    // A box of half extent (2, 2) is a box of size (4, 4).
    let b = RectShape::new(vec2(4u32, 4u32));
    assert_eq!(b.frag(vec2(2, 2)).dist, 0);
    assert_eq!(b.frag(vec2(0, 0)).dist, -2 * UNIT);
    assert_eq!(b.frag(vec2(2, 0)).dist, 0);
    assert_eq!(b.frag(vec2(3, 0)).dist, UNIT);
}

#[test]
fn box_bounding_box_is_inflated_by_one() {
    let b = RectShape::new(vec2(4u32, 6u32));
    let bb = b.bounding_box();
    assert_eq!((bb.top_left.x, bb.top_left.y), (-3, -4));
    assert_eq!((bb.bot_right.x, bb.bot_right.y), (3, 4));
}

#[test]
fn union_takes_the_smaller_distance() {
    let u = ShapeUnion { a: Circle::new(5), b: Circle::new(3) };
    for p in [vec2(0, 0), vec2(4, 0), vec2(9, 2), vec2(-7, -7)] {
        let da = Circle::new(5).frag(p).dist;
        let db = Circle::new(3).frag(p).dist;
        assert_eq!(u.frag(p).dist, da.min(db));
    }
}

#[test]
fn intersect_takes_the_larger_distance() {
    let i = ShapeIntersect { a: Circle::new(5), b: RectShape::new(vec2(6u32, 6u32)) };
    for p in [vec2(0, 0), vec2(4, 0), vec2(9, 2), vec2(-7, -7)] {
        let da = Circle::new(5).frag(p).dist;
        let db = RectShape::new(vec2(6u32, 6u32)).frag(p).dist;
        assert_eq!(i.frag(p).dist, da.max(db));
    }
}

#[test]
fn diff_negates_the_second_distance() {
    let d = ShapeDiff { a: Circle::new(5), b: Circle::new(2) };
    for p in [vec2(0, 0), vec2(3, 0), vec2(9, 2)] {
        let da = Circle::new(5).frag(p).dist;
        let db = Circle::new(2).frag(p).dist;
        assert_eq!(d.frag(p).dist, da.max(-db));
    }
    // Inside the carved-out hole the point is outside the difference.
    assert!(d.frag(vec2(0, 0)).dist > 0);
    // Between the two radii it is inside.
    assert!(d.frag(vec2(3, 0)).dist < 0);
}

#[test]
fn invert_twice_is_identity() {
    let c = Circle::new(5);
    let ii = ShapeInvert { a: ShapeInvert { a: c } };
    for p in [vec2(0, 0), vec2(5, 0), vec2(9, 2), vec2(-3, 4)] {
        assert_eq!(ii.frag(p).dist, c.frag(p).dist);
        assert_eq!(ShapeInvert { a: c }.frag(p).dist, -c.frag(p).dist);
    }
}

#[test]
fn extend_offsets_the_boundary() {
    let e = ShapeExtend { a: Circle::new(5), r: 3 };
    assert_eq!(e.frag(vec2(8, 0)).dist, 0);
    let bb = e.bounding_box();
    assert_eq!((bb.top_left.x, bb.bot_right.x), (-8, 8));
    // A negative offset shrinks the inside and still grows the box.
    let s = ShapeExtend { a: Circle::new(5), r: -2 };
    assert_eq!(s.frag(vec2(3, 0)).dist, 0);
    let bb = s.bounding_box();
    assert_eq!((bb.top_left.x, bb.bot_right.x), (-7, 7));
}

#[test]
fn colored_overrides_only_the_color() {
    let red = Color::new(255, 0, 0, 255);
    let c = Circle::new(5).colored(red);
    let f = c.frag(vec2(1, 1));
    assert_eq!(f.color, red);
    assert_eq!(f.dist, Circle::new(5).frag(vec2(1, 1)).dist);
}

#[test]
fn stroked_keeps_a_band_around_the_boundary() {
    let s = StrokedShape { a: Circle::new(10), width: 2 };
    assert_eq!(s.frag(vec2(9, 0)).dist, 0);
    assert_eq!(s.frag(vec2(11, 0)).dist, 0);
    assert_eq!(s.frag(vec2(5, 0)).dist, 4 * UNIT);
    assert_eq!(s.frag(vec2(10, 0)).dist, -UNIT);
}

#[test]
fn transformed_by_identity_is_a_no_op() {
    let t = TransformedShape { a: Circle::new(5), transform: Transform::identity() };
    for p in [vec2(0, 0), vec2(5, 0), vec2(9, 2), vec2(-3, 4)] {
        assert_eq!(t.frag(p).dist, Circle::new(5).frag(p).dist);
        assert_eq!(t.frag(p).color, Circle::new(5).frag(p).color);
    }
    let bb = t.bounding_box();
    assert_eq!((bb.top_left.x, bb.top_left.y), (-5, -5));
    assert_eq!((bb.bot_right.x, bb.bot_right.y), (5, 5));
}

#[test]
fn translation_moves_queries_and_box() {
    let t = Circle::new(5).moved(vec2(8 * UNIT, 0));
    assert_eq!(t.frag(vec2(8, 0)).dist, -5 * UNIT);
    assert_eq!(t.frag(vec2(13, 0)).dist, 0);
    let bb = t.bounding_box();
    assert_eq!((bb.top_left.x, bb.top_left.y), (3, -5));
    assert_eq!((bb.bot_right.x, bb.bot_right.y), (13, 5));
}

#[test]
fn union_of_circle_and_translated_circle_has_combined_box() {
    let u = ShapeUnion {
        a: Circle::new(5),
        b: Circle::new(5).moved(vec2(8 * UNIT, 0)),
    };
    let bb = u.bounding_box();
    assert_eq!((bb.top_left.x, bb.top_left.y), (-5, -5));
    assert_eq!((bb.bot_right.x, bb.bot_right.y), (13, 5));
}

#[test]
fn contains_uses_the_half_pixel_threshold() {
    let c = Circle::new(5);
    assert!(c.contains(vec2(0, 0)));
    assert!(c.contains(vec2(5, 0)));
    assert!(!c.contains(vec2(6, 0)));
}

#[test]
fn scaled_shape_maps_queries_into_local_space() {
    // Double size: a point 8 right of center maps to 4 in local space.
    let t = Circle::new(5).scaled(vec2(2 * UNIT, 2 * UNIT));
    assert_eq!(t.frag(vec2(8, 0)).dist, Circle::new(5).frag(vec2(4, 0)).dist);
    let bb = t.bounding_box();
    assert_eq!((bb.top_left.x, bb.bot_right.x), (-10, 10));
}

#[test]
fn rotated_shape_maps_queries_into_local_space() {
    // A quarter turn: sine one, cosine zero, in subunits.
    let r = RectShape::new(vec2(8u32, 2u32)).rotated(UNIT, 0);
    // The wide axis now runs vertically.
    assert!(r.frag(vec2(0, 3)).dist < 0);
    assert!(r.frag(vec2(4, 0)).dist > 0);
}

#[test]
fn contained_points_stay_within_the_bounding_box() {
    // A compound in the bounding-box-sound class: points strictly outside
    // the reported box are never contained.
    let shape = ShapeUnion {
        a: Circle::new(5).stroked(2),
        b: RectShape::new(vec2(4u32, 4u32)).moved(vec2(6 * 256, 0)),
    };
    let bb = shape.bounding_box();
    for x in (bb.top_left.x - 4)..(bb.bot_right.x + 5) {
        for y in (bb.top_left.y - 4)..(bb.bot_right.y + 5) {
            let outside = x < bb.top_left.x || x > bb.bot_right.x || y < bb.top_left.y
                || y > bb.bot_right.y;
            if outside {
                assert!(!shape.contains(vec2(x, y)));
            }
        }
    }
}

//! The laws of the shape algebra, stated once over every shape and proved
//! from the combinators' specifications.

use vstd::prelude::*;
use crate::drawing::pixelbuffer::{frame_s, paints, DrawMode, SPixelBuffer};
use crate::drawing::shapes::composite::{ShapeDiff, ShapeIntersect, ShapeInvert, ShapeUnion};
use crate::drawing::shapes::shape::{in_pixel_range, Shape};
use crate::drawing::shapes::transf::TransformedShape;
use crate::math::fixed::{lemma_rnd_div_exact, HALF, UNIT};
use crate::math::rect::{cheb, inside, intersect_s, lemma_cheb_inside, max_i, min_i, SRect};
use crate::math::transf::{lemma_translation_apply, Transform};
use crate::math::vector::{from_pixel_s, SVec2};

verus! {

/// Every pixel a shape of the bounding-box-sound class contains lies
/// within its reported bounding box: a pixel strictly outside the box is
/// never contained.
pub proof fn shape_within_bounding_box<S: Shape>(s: S, p: SVec2)
    requires
        s.wf(),
        s.bbox_sound(),
        in_pixel_range(p),
        s.s_frag(p).dist < HALF,
    ensures
        inside(p, s.s_bbox()),
{
    let c = cheb(p, s.s_bbox());
    if c >= 1 {
        s.lemma_bbox_covers(p);
        assert(UNIT * c >= UNIT) by (nonlinear_arith)
            requires
                c >= 1,
                UNIT == 256,
        ;
    }
    lemma_cheb_inside(p, s.s_bbox());
}

/// The union's distance at every point is the smaller of its children's
/// distances.
pub proof fn union_distance_law<A: Shape, B: Shape>(a: A, b: B, p: SVec2)
    ensures
        (ShapeUnion { a, b }).s_frag(p).dist == min_i(a.s_frag(p).dist, b.s_frag(p).dist),
{
}

/// The intersection's distance at every point is the larger of its
/// children's distances.
pub proof fn intersect_distance_law<A: Shape, B: Shape>(a: A, b: B, p: SVec2)
    ensures
        (ShapeIntersect { a, b }).s_frag(p).dist == max_i(a.s_frag(p).dist, b.s_frag(p).dist),
{
}

/// The difference's distance at every point is the larger of the first
/// child's distance and the negated distance of the second.
pub proof fn diff_distance_law<A: Shape, B: Shape>(a: A, b: B, p: SVec2)
    ensures
        (ShapeDiff { a, b }).s_frag(p).dist == max_i(a.s_frag(p).dist, -b.s_frag(p).dist),
{
}

/// Inverting a shape twice restores its distance at every point: double
/// negation is the identity.
pub proof fn invert_involution_law<A: Shape>(a: A, p: SVec2)
    ensures
        (ShapeInvert { a: ShapeInvert { a } }).s_frag(p).dist == a.s_frag(p).dist,
{
}

/// A shape under the identity transform answers exactly the fragments of
/// the bare shape, at every pixel.
pub proof fn transformed_identity_law<A: Shape>(a: A, t: Transform, p: SVec2)
    requires
        t@.translation == (SVec2 { x: 0, y: 0 }),
        t@.rot_sin == 0,
        t@.rot_cos == UNIT,
        t@.scale == (SVec2 { x: UNIT as int, y: UNIT as int }),
        in_pixel_range(p),
    ensures
        (TransformedShape { a, transform: t }).s_frag(p) == a.s_frag(p),
{
    lemma_translation_apply(t@, from_pixel_s(p));
    lemma_rnd_div_exact(p.x, 256);
    lemma_rnd_div_exact(p.y, 256);
}

/// The rectangle has no points: one corner coordinate of `top_left`
/// exceeds the corresponding `bot_right` coordinate.
pub open spec fn empty_rect(r: SRect) -> bool {
    r.tl.x > r.br.x || r.tl.y > r.br.y
}

/// Drawing a shape whose bounding box lies entirely outside the frame
/// paints nothing: no pixel satisfies the paint predicate, so by the
/// contract of `draw` the buffer is unchanged.
pub proof fn draw_outside_frame_law<S: Shape>(s: S, b: SPixelBuffer, mode: DrawMode, x: int, y: int)
    requires
        empty_rect(intersect_s(s.s_bbox(), frame_s(b))),
    ensures
        !paints(s, b, mode, x, y),
{
}

} // verus!

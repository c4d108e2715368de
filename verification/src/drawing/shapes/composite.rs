//! Combinators that compose two shapes, or one shape and a scalar, under
//! the distance rules of the algebra: union takes the smaller distance,
//! intersection the larger, difference carves one shape out of another,
//! inversion swaps inside and outside, and extension offsets the boundary.

use vstd::prelude::*;
use crate::drawing::shapes::shape::{Fragment, SFrag, Shape};
use crate::math::fixed::{abs_int, clamp_i64, clamp_int, clamp_to_i32, DMAX, HALF, UNIT};
use crate::math::rect::{
    cheb, clamp_rect_s, combine_s, inflate_s, intersect_s, lemma_cheb_clamp, lemma_cheb_combine,
    lemma_cheb_inflate, lemma_cheb_intersect, Rect, SRect,
};
use crate::math::vector::{SVec2, Vec2};

verus! {

/// The union of two shapes: a point is inside when it is inside either.
#[derive(Debug, Clone, Copy)]
pub struct ShapeUnion<A, B> {
    pub a: A,
    pub b: B,
}

impl<A: Shape, B: Shape> Shape for ShapeUnion<A, B> {
    open spec fn wf(&self) -> bool {
        self.a.wf() && self.b.wf()
    }

    open spec fn s_frag(&self, p: SVec2) -> SFrag {
        if self.a.s_frag(p).dist <= self.b.s_frag(p).dist {
            self.a.s_frag(p)
        } else {
            self.b.s_frag(p)
        }
    }

    open spec fn s_bbox(&self) -> SRect {
        combine_s(self.a.s_bbox(), self.b.s_bbox())
    }

    open spec fn bbox_sound(&self) -> bool {
        self.a.bbox_sound() && self.b.bbox_sound()
    }

    fn frag(&self, v: Vec2<i32>) -> (r: Fragment) {
        let fa = self.a.frag(v);
        let fb = self.b.frag(v);
        if fa.dist <= fb.dist {
            fa
        } else {
            fb
        }
    }

    fn bounding_box(&self) -> (r: Rect<i32>) {
        self.a.bounding_box().combine(self.b.bounding_box())
    }

    proof fn lemma_frag_bounded(&self, p: SVec2) {
        self.a.lemma_frag_bounded(p);
        self.b.lemma_frag_bounded(p);
    }

    proof fn lemma_bbox_covers(&self, p: SVec2) {
        lemma_cheb_combine(p, self.a.s_bbox(), self.b.s_bbox());
        self.a.lemma_bbox_covers(p);
        self.b.lemma_bbox_covers(p);
        let c = cheb(p, self.s_bbox());
        assert(UNIT * cheb(p, self.a.s_bbox()) >= UNIT * c && UNIT * cheb(p, self.b.s_bbox())
            >= UNIT * c) by (nonlinear_arith)
            requires
                cheb(p, self.a.s_bbox()) >= c,
                cheb(p, self.b.s_bbox()) >= c,
        ;
    }
}

/// The intersection of two shapes: a point is inside when it is inside
/// both.
#[derive(Debug, Clone, Copy)]
pub struct ShapeIntersect<A, B> {
    pub a: A,
    pub b: B,
}

impl<A: Shape, B: Shape> Shape for ShapeIntersect<A, B> {
    open spec fn wf(&self) -> bool {
        self.a.wf() && self.b.wf()
    }

    open spec fn s_frag(&self, p: SVec2) -> SFrag {
        if self.a.s_frag(p).dist >= self.b.s_frag(p).dist {
            self.a.s_frag(p)
        } else {
            self.b.s_frag(p)
        }
    }

    open spec fn s_bbox(&self) -> SRect {
        intersect_s(self.a.s_bbox(), self.b.s_bbox())
    }

    open spec fn bbox_sound(&self) -> bool {
        self.a.bbox_sound() && self.b.bbox_sound()
    }

    fn frag(&self, v: Vec2<i32>) -> (r: Fragment) {
        let fa = self.a.frag(v);
        let fb = self.b.frag(v);
        if fa.dist >= fb.dist {
            fa
        } else {
            fb
        }
    }

    fn bounding_box(&self) -> (r: Rect<i32>) {
        self.a.bounding_box().intersection(self.b.bounding_box())
    }

    proof fn lemma_frag_bounded(&self, p: SVec2) {
        self.a.lemma_frag_bounded(p);
        self.b.lemma_frag_bounded(p);
    }

    proof fn lemma_bbox_covers(&self, p: SVec2) {
        lemma_cheb_intersect(p, self.a.s_bbox(), self.b.s_bbox());
        let c = cheb(p, self.s_bbox());
        if cheb(p, self.a.s_bbox()) >= c {
            self.a.lemma_bbox_covers(p);
        } else {
            self.b.lemma_bbox_covers(p);
        }
    }
}

/// The difference of two shapes, the first minus the second. The bounding
/// box of the first is kept unchanged: deliberately conservative, it does
/// not shrink to reflect the removed region.
#[derive(Debug, Clone, Copy)]
pub struct ShapeDiff<A, B> {
    pub a: A,
    pub b: B,
}

impl<A: Shape, B: Shape> Shape for ShapeDiff<A, B> {
    open spec fn wf(&self) -> bool {
        self.a.wf() && self.b.wf()
    }

    open spec fn s_frag(&self, p: SVec2) -> SFrag {
        let binv = SFrag { dist: -self.b.s_frag(p).dist, color: self.b.s_frag(p).color };
        if self.a.s_frag(p).dist >= binv.dist {
            self.a.s_frag(p)
        } else {
            binv
        }
    }

    open spec fn s_bbox(&self) -> SRect {
        self.a.s_bbox()
    }

    open spec fn bbox_sound(&self) -> bool {
        self.a.bbox_sound()
    }

    fn frag(&self, v: Vec2<i32>) -> (r: Fragment) {
        let fa = self.a.frag(v);
        let fb = self.b.frag(v);
        proof {
            self.b.lemma_frag_bounded(v@);
        }
        let binv = Fragment::new(-fb.dist, fb.color);
        if fa.dist >= binv.dist {
            fa
        } else {
            binv
        }
    }

    fn bounding_box(&self) -> (r: Rect<i32>) {
        self.a.bounding_box()
    }

    proof fn lemma_frag_bounded(&self, p: SVec2) {
        self.a.lemma_frag_bounded(p);
        self.b.lemma_frag_bounded(p);
    }

    proof fn lemma_bbox_covers(&self, p: SVec2) {
        self.a.lemma_bbox_covers(p);
    }
}

/// The inversion of a shape: inside and outside exchanged by negating the
/// distance. The child's bounding box is kept, so an inverted shape is not
/// in the bounding-box-sound class.
#[derive(Debug, Clone, Copy)]
pub struct ShapeInvert<A> {
    pub a: A,
}

impl<A: Shape> Shape for ShapeInvert<A> {
    open spec fn wf(&self) -> bool {
        self.a.wf()
    }

    open spec fn s_frag(&self, p: SVec2) -> SFrag {
        SFrag { dist: -self.a.s_frag(p).dist, color: self.a.s_frag(p).color }
    }

    open spec fn s_bbox(&self) -> SRect {
        self.a.s_bbox()
    }

    open spec fn bbox_sound(&self) -> bool {
        false
    }

    fn frag(&self, v: Vec2<i32>) -> (r: Fragment) {
        let fa = self.a.frag(v);
        proof {
            self.a.lemma_frag_bounded(v@);
        }
        Fragment::new(-fa.dist, fa.color)
    }

    fn bounding_box(&self) -> (r: Rect<i32>) {
        self.a.bounding_box()
    }

    proof fn lemma_frag_bounded(&self, p: SVec2) {
        self.a.lemma_frag_bounded(p);
    }

    proof fn lemma_bbox_covers(&self, p: SVec2) {
    }
}

/// A shape with its boundary offset outward by `r` pixels (inward for
/// negative `r`). The distance saturates at `DMAX`, and the bounding box
/// grows by `|r|` on every side, clipped to the pixel range.
#[derive(Debug, Clone, Copy)]
pub struct ShapeExtend<A> {
    pub a: A,
    pub r: i32,
}

impl<A: Shape> Shape for ShapeExtend<A> {
    open spec fn wf(&self) -> bool {
        self.a.wf()
    }

    open spec fn s_frag(&self, p: SVec2) -> SFrag {
        SFrag {
            dist: clamp_int(self.a.s_frag(p).dist - self.r * UNIT, -DMAX as int, DMAX as int),
            color: self.a.s_frag(p).color,
        }
    }

    open spec fn s_bbox(&self) -> SRect {
        clamp_rect_s(inflate_s(self.a.s_bbox(), abs_int(self.r as int)))
    }

    open spec fn bbox_sound(&self) -> bool {
        self.a.bbox_sound()
    }

    fn frag(&self, v: Vec2<i32>) -> (r: Fragment) {
        let fa = self.a.frag(v);
        proof {
            self.a.lemma_frag_bounded(v@);
        }
        let dist = clamp_i64(fa.dist - (self.r as i64) * 256, -DMAX, DMAX);
        Fragment::new(dist, fa.color)
    }

    fn bounding_box(&self) -> (r: Rect<i32>) {
        let bb = self.a.bounding_box();
        let k: i64 = if self.r < 0 { -(self.r as i64) } else { self.r as i64 };
        Rect::new(
            Vec2::new(
                clamp_to_i32(bb.top_left.x as i64 - k),
                clamp_to_i32(bb.top_left.y as i64 - k),
            ),
            Vec2::new(
                clamp_to_i32(bb.bot_right.x as i64 + k),
                clamp_to_i32(bb.bot_right.y as i64 + k),
            ),
        )
    }

    proof fn lemma_frag_bounded(&self, p: SVec2) {
        self.a.lemma_frag_bounded(p);
    }

    proof fn lemma_bbox_covers(&self, p: SVec2) {
        let k = abs_int(self.r as int);
        let infl = inflate_s(self.a.s_bbox(), k);
        let c = cheb(p, self.s_bbox());
        lemma_cheb_clamp(p, infl);
        lemma_cheb_inflate(p, self.a.s_bbox(), k);
        self.a.lemma_bbox_covers(p);
        let ca = cheb(p, self.a.s_bbox());
        assert(UNIT * ca >= UNIT * (c + k) && UNIT * c <= 0x400_0000_0000) by (nonlinear_arith)
            requires
                ca >= c + k >= 0,
                0 <= c <= 0x2_0000_0000,
                UNIT == 256,
        ;
        assert(self.a.s_frag(p).dist - self.r * UNIT >= UNIT * c - HALF) by (nonlinear_arith)
            requires
                self.a.s_frag(p).dist >= UNIT * ca - HALF,
                UNIT * ca >= UNIT * (c + k),
                k == abs_int(self.r as int),
                UNIT == 256,
                -0x8000_0000 <= self.r <= 0x7fff_ffff,
        ;
    }
}

} // verus!

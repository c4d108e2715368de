//! Combinators that change how a shape is painted: a fixed color override,
//! and stroking, which turns a filled shape into its outline band.

use vstd::prelude::*;
use crate::drawing::color::Color;
use crate::drawing::shapes::shape::{Fragment, SFrag, Shape};
use crate::math::fixed::{abs_int, clamp_i64, clamp_int, clamp_to_i32, DMAX, HALF, UNIT};
use crate::math::rect::{
    cheb, clamp_rect_s, inflate_s, lemma_cheb_clamp, lemma_cheb_inflate, Rect, SRect,
};
use crate::math::vector::{SVec2, Vec2};

verus! {

/// A shape painted in one fixed color, whatever its child answers.
#[derive(Debug, Clone, Copy)]
pub struct ColoredShape<A> {
    pub a: A,
    pub color: Color,
}

impl<A> ColoredShape<A> {
    /// Wraps a shape so that every fragment carries the given color.
    pub fn new(a: A, color: Color) -> (r: Self)
        ensures
            r.a == a,
            r.color == color,
    {
        Self { a, color }
    }
}

impl<A: Shape> Shape for ColoredShape<A> {
    open spec fn wf(&self) -> bool {
        self.a.wf()
    }

    open spec fn s_frag(&self, p: SVec2) -> SFrag {
        SFrag { dist: self.a.s_frag(p).dist, color: self.color }
    }

    open spec fn s_bbox(&self) -> SRect {
        self.a.s_bbox()
    }

    open spec fn bbox_sound(&self) -> bool {
        self.a.bbox_sound()
    }

    fn frag(&self, v: Vec2<i32>) -> (r: Fragment) {
        let fa = self.a.frag(v);
        Fragment::new(fa.dist, self.color)
    }

    fn bounding_box(&self) -> (r: Rect<i32>) {
        self.a.bounding_box()
    }

    proof fn lemma_frag_bounded(&self, p: SVec2) {
        self.a.lemma_frag_bounded(p);
    }

    proof fn lemma_bbox_covers(&self, p: SVec2) {
        self.a.lemma_bbox_covers(p);
    }
}

/// The outline of a shape: the band of points whose distance to the
/// child's boundary is within half the stroke width. The distance
/// saturates at `DMAX`; the bounding box grows by the width on every side
/// (shrinking for a negative width, which yields an empty band).
#[derive(Debug, Clone, Copy)]
pub struct StrokedShape<A> {
    pub a: A,
    pub width: i32,
}

impl<A> StrokedShape<A> {
    /// Wraps a shape so that only its outline band is inside.
    pub fn new(a: A, width: i32) -> (r: Self)
        ensures
            r.a == a,
            r.width == width,
    {
        Self { a, width }
    }
}

impl<A: Shape> Shape for StrokedShape<A> {
    open spec fn wf(&self) -> bool {
        self.a.wf()
    }

    open spec fn s_frag(&self, p: SVec2) -> SFrag {
        SFrag {
            dist: clamp_int(
                abs_int(self.a.s_frag(p).dist) - self.width * HALF,
                -DMAX as int,
                DMAX as int,
            ),
            color: self.a.s_frag(p).color,
        }
    }

    open spec fn s_bbox(&self) -> SRect {
        clamp_rect_s(inflate_s(self.a.s_bbox(), self.width as int))
    }

    open spec fn bbox_sound(&self) -> bool {
        self.a.bbox_sound() && self.width >= 0
    }

    fn frag(&self, v: Vec2<i32>) -> (r: Fragment) {
        let fa = self.a.frag(v);
        proof {
            self.a.lemma_frag_bounded(v@);
        }
        let ad: i64 = if fa.dist < 0 { -fa.dist } else { fa.dist };
        let dist = clamp_i64(ad - (self.width as i64) * 128, -DMAX, DMAX);
        Fragment::new(dist, fa.color)
    }

    fn bounding_box(&self) -> (r: Rect<i32>) {
        let bb = self.a.bounding_box();
        let w = self.width as i64;
        Rect::new(
            Vec2::new(
                clamp_to_i32(bb.top_left.x as i64 - w),
                clamp_to_i32(bb.top_left.y as i64 - w),
            ),
            Vec2::new(
                clamp_to_i32(bb.bot_right.x as i64 + w),
                clamp_to_i32(bb.bot_right.y as i64 + w),
            ),
        )
    }

    proof fn lemma_frag_bounded(&self, p: SVec2) {
        self.a.lemma_frag_bounded(p);
    }

    proof fn lemma_bbox_covers(&self, p: SVec2) {
        let w = self.width as int;
        let infl = inflate_s(self.a.s_bbox(), w);
        let c = cheb(p, self.s_bbox());
        lemma_cheb_clamp(p, infl);
        lemma_cheb_inflate(p, self.a.s_bbox(), w);
        self.a.lemma_bbox_covers(p);
        let ca = cheb(p, self.a.s_bbox());
        let da = self.a.s_frag(p).dist;
        assert(abs_int(da) - w * HALF >= UNIT * c - HALF && UNIT * c <= 0x400_0000_0000)
            by (nonlinear_arith)
            requires
                da >= UNIT * ca - HALF,
                ca >= c + w,
                c >= 1,
                w >= 0,
                0 <= c <= 0x2_0000_0000,
                UNIT == 256,
                HALF == 128,
        ;
    }
}

/// Fluent construction of the coloring combinators, available on every
/// shape.
pub trait IntoColored: Sized {
    /// Paints the shape in one fixed color.
    fn colored(self, color: Color) -> (r: ColoredShape<Self>)
        ensures
            r.a == self,
            r.color == color,
    ;

    /// Keeps only the outline band of the given width.
    fn stroked(self, width: i32) -> (r: StrokedShape<Self>)
        ensures
            r.a == self,
            r.width == width,
    ;
}

impl<T: Shape> IntoColored for T {
    fn colored(self, color: Color) -> (r: ColoredShape<Self>) {
        ColoredShape::new(self, color)
    }

    fn stroked(self, width: i32) -> (r: StrokedShape<Self>) {
        StrokedShape::new(self, width)
    }
}

} // verus!

//! A shape viewed through an affine transform: queries are mapped into the
//! child's local space through the exact analytic inverse, and the
//! bounding box is the axis-aligned hull of the transform applied to all
//! four corners of the child's box, rounded outward.

use vstd::prelude::*;
use crate::drawing::shapes::shape::{
    default_color, in_pixel_range, Fragment, SFrag, Shape,
};
use crate::math::fixed::{
    ceil_div, ceil_div_s, clamp_to_i32, floor_div, floor_div_s, lemma_div_translate,
    lemma_rnd_div_translate, rnd_div, rnd_div_s, DMAX, HALF, UNIT,
};
use crate::math::rect::{
    axis_dist, cheb, clamp_rect_s, lemma_cheb_clamp, max_i, min_i, Rect, SRect,
};
use crate::math::transf::{
    apply_inv_to_pos_s, apply_to_pos_s, is_translation, lemma_translation_apply, transform_wf,
    Transform,
};
use crate::math::vector::{from_pixel_s, SVec2, Vec2};

verus! {

/// A shape moved, rotated and scaled by a transform.
#[derive(Debug, Clone, Copy)]
pub struct TransformedShape<A> {
    pub a: A,
    pub transform: Transform,
}

impl<A> TransformedShape<A> {
    /// Wraps a shape under the given transform.
    pub fn new(a: A, transform: Transform) -> (r: Self)
        ensures
            r.a == a,
            r.transform == transform,
    {
        Self { a, transform }
    }
}

/// The query point of the child: the world point taken to subunits, mapped
/// through the inverse transform, and rounded back to a pixel.
pub open spec fn local_point(t: crate::math::transf::STransform, p: SVec2) -> SVec2 {
    let inv = apply_inv_to_pos_s(t, from_pixel_s(p));
    SVec2 { x: rnd_div_s(inv.x, 256), y: rnd_div_s(inv.y, 256) }
}

/// The axis-aligned hull of the four mapped corners of a rectangle, in
/// subunits.
pub open spec fn mapped_hull(t: crate::math::transf::STransform, r: SRect) -> SRect {
    let m1 = apply_to_pos_s(t, from_pixel_s(r.tl));
    let m2 = apply_to_pos_s(t, from_pixel_s(SVec2 { x: r.br.x, y: r.tl.y }));
    let m3 = apply_to_pos_s(t, from_pixel_s(SVec2 { x: r.tl.x, y: r.br.y }));
    let m4 = apply_to_pos_s(t, from_pixel_s(r.br));
    SRect {
        tl: SVec2 {
            x: min_i(min_i(min_i(m1.x, m2.x), m3.x), m4.x),
            y: min_i(min_i(min_i(m1.y, m2.y), m3.y), m4.y),
        },
        br: SVec2 {
            x: max_i(max_i(max_i(m1.x, m2.x), m3.x), m4.x),
            y: max_i(max_i(max_i(m1.y, m2.y), m3.y), m4.y),
        },
    }
}

/// The hull taken back to whole pixels, rounded outward so that it can
/// only grow, then clipped into the pixel range.
pub open spec fn mapped_bbox(t: crate::math::transf::STransform, r: SRect) -> SRect {
    let h = mapped_hull(t, r);
    clamp_rect_s(
        SRect {
            tl: SVec2 { x: floor_div_s(h.tl.x, 256), y: floor_div_s(h.tl.y, 256) },
            br: SVec2 { x: ceil_div_s(h.br.x, 256), y: ceil_div_s(h.br.y, 256) },
        },
    )
}

impl<A: Shape> Shape for TransformedShape<A> {
    open spec fn wf(&self) -> bool {
        self.a.wf() && transform_wf(self.transform@) && self.transform.scale.x != 0
            && self.transform.scale.y != 0
    }

    open spec fn s_frag(&self, p: SVec2) -> SFrag {
        let q = local_point(self.transform@, p);
        if in_pixel_range(q) {
            self.a.s_frag(q)
        } else {
            SFrag { dist: DMAX as int, color: default_color() }
        }
    }

    open spec fn s_bbox(&self) -> SRect {
        mapped_bbox(self.transform@, self.a.s_bbox())
    }

    open spec fn bbox_sound(&self) -> bool {
        self.a.bbox_sound() && is_translation(self.transform@)
    }

    fn frag(&self, v: Vec2<i32>) -> (r: Fragment) {
        let inv = self.transform.apply_inv_to_pos(v.to_fixed());
        let qx = rnd_div(inv.x, 256);
        let qy = rnd_div(inv.y, 256);
        if -0x8000_0000 <= qx && qx <= 0x7fff_ffff && -0x8000_0000 <= qy && qy <= 0x7fff_ffff {
            self.a.frag(Vec2::new(qx as i32, qy as i32))
        } else {
            Fragment::with_default_color(DMAX)
        }
    }

    fn bounding_box(&self) -> (r: Rect<i32>) {
        let bb = self.a.bounding_box();
        let m1 = self.transform.apply_to_pos(bb.top_left.to_fixed());
        let m2 = self.transform.apply_to_pos(
            Vec2::new(bb.bot_right.x, bb.top_left.y).to_fixed(),
        );
        let m3 = self.transform.apply_to_pos(
            Vec2::new(bb.top_left.x, bb.bot_right.y).to_fixed(),
        );
        let m4 = self.transform.apply_to_pos(bb.bot_right.to_fixed());
        let lo = m1.min(m2).min(m3).min(m4);
        let hi = m1.max(m2).max(m3).max(m4);
        proof {
            let h = mapped_hull(self.transform@, self.a.s_bbox());
            assert(m1@ == apply_to_pos_s(self.transform@, from_pixel_s(self.a.s_bbox().tl)));
            assert(m4@ == apply_to_pos_s(self.transform@, from_pixel_s(self.a.s_bbox().br)));
            assert(lo@.x == h.tl.x && lo@.y == h.tl.y && hi@.x == h.br.x && hi@.y == h.br.y);
        }
        Rect::new(
            Vec2::new(
                clamp_to_i32(floor_div(lo.x, 256)),
                clamp_to_i32(floor_div(lo.y, 256)),
            ),
            Vec2::new(
                clamp_to_i32(ceil_div(hi.x, 256)),
                clamp_to_i32(ceil_div(hi.y, 256)),
            ),
        )
    }

    proof fn lemma_frag_bounded(&self, p: SVec2) {
        let q = local_point(self.transform@, p);
        if in_pixel_range(q) {
            self.a.lemma_frag_bounded(q);
        }
    }

    proof fn lemma_bbox_covers(&self, p: SVec2) {
        let t = self.transform@;
        let tr = t.translation;
        let bb = self.a.s_bbox();
        let c = cheb(p, self.s_bbox());
        lemma_translation_apply(t, from_pixel_s(bb.tl));
        lemma_translation_apply(t, from_pixel_s(SVec2 { x: bb.br.x, y: bb.tl.y }));
        lemma_translation_apply(t, from_pixel_s(SVec2 { x: bb.tl.x, y: bb.br.y }));
        lemma_translation_apply(t, from_pixel_s(bb.br));
        lemma_translation_apply(t, from_pixel_s(p));
        let h = mapped_hull(t, bb);
        assert(h.tl.x == min_i(bb.tl.x, bb.br.x) * 256 + tr.x) by (nonlinear_arith)
            requires
                h.tl.x == min_i(
                    min_i(min_i(bb.tl.x * 256 + tr.x, bb.br.x * 256 + tr.x), bb.tl.x * 256 + tr.x),
                    bb.br.x * 256 + tr.x,
                ),
        ;
        assert(h.tl.y == min_i(bb.tl.y, bb.br.y) * 256 + tr.y) by (nonlinear_arith)
            requires
                h.tl.y == min_i(
                    min_i(min_i(bb.tl.y * 256 + tr.y, bb.tl.y * 256 + tr.y), bb.br.y * 256 + tr.y),
                    bb.br.y * 256 + tr.y,
                ),
        ;
        assert(h.br.x == max_i(bb.tl.x, bb.br.x) * 256 + tr.x) by (nonlinear_arith)
            requires
                h.br.x == max_i(
                    max_i(max_i(bb.tl.x * 256 + tr.x, bb.br.x * 256 + tr.x), bb.tl.x * 256 + tr.x),
                    bb.br.x * 256 + tr.x,
                ),
        ;
        assert(h.br.y == max_i(bb.tl.y, bb.br.y) * 256 + tr.y) by (nonlinear_arith)
            requires
                h.br.y == max_i(
                    max_i(max_i(bb.tl.y * 256 + tr.y, bb.tl.y * 256 + tr.y), bb.br.y * 256 + tr.y),
                    bb.br.y * 256 + tr.y,
                ),
        ;
        lemma_div_translate(min_i(bb.tl.x, bb.br.x), tr.x, 256);
        lemma_div_translate(min_i(bb.tl.y, bb.br.y), tr.y, 256);
        lemma_div_translate(max_i(bb.tl.x, bb.br.x), tr.x, 256);
        lemma_div_translate(max_i(bb.tl.y, bb.br.y), tr.y, 256);
        let hull_pix = SRect {
            tl: SVec2 { x: floor_div_s(h.tl.x, 256), y: floor_div_s(h.tl.y, 256) },
            br: SVec2 { x: ceil_div_s(h.br.x, 256), y: ceil_div_s(h.br.y, 256) },
        };
        lemma_cheb_clamp(p, hull_pix);
        let q = local_point(t, p);
        lemma_rnd_div_translate(p.x, tr.x, 256);
        lemma_rnd_div_translate(p.y, tr.y, 256);
        if in_pixel_range(q) {
            assert(axis_dist(q.x, bb.tl.x, bb.br.x) >= axis_dist(
                p.x,
                self.s_bbox().tl.x,
                self.s_bbox().br.x,
            ));
            assert(axis_dist(q.y, bb.tl.y, bb.br.y) >= axis_dist(
                p.y,
                self.s_bbox().tl.y,
                self.s_bbox().br.y,
            ));
            self.a.lemma_bbox_covers(q);
            assert(UNIT * cheb(q, bb) >= UNIT * c) by (nonlinear_arith)
                requires
                    cheb(q, bb) >= c,
            ;
        } else {
            assert(UNIT * c <= 0x400_0000_0000) by (nonlinear_arith)
                requires
                    0 <= c <= 0x2_0000_0000,
                    UNIT == 256,
            ;
        }
    }
}

/// Fluent construction of transformed shapes, available on every shape.
pub trait IntoTransformed: Sized {
    /// Moves the shape by a translation given in subunits.
    fn moved(self, translation: Vec2<i64>) -> (r: TransformedShape<Self>)
        requires
            -crate::math::transf::T_MAX <= translation.x <= crate::math::transf::T_MAX,
            -crate::math::transf::T_MAX <= translation.y <= crate::math::transf::T_MAX,
        ensures
            r.a == self,
            r.transform@.translation == translation@,
            transform_wf(r.transform@),
            is_translation(r.transform@),
    ;

    /// Rotates the shape by the angle whose sine and cosine are given in
    /// subunits.
    fn rotated(self, rot_sin: i64, rot_cos: i64) -> (r: TransformedShape<Self>)
        requires
            -UNIT <= rot_sin <= UNIT,
            -UNIT <= rot_cos <= UNIT,
        ensures
            r.a == self,
            r.transform@.rot_sin == rot_sin,
            r.transform@.rot_cos == rot_cos,
            r.transform@.translation == (SVec2 { x: 0, y: 0 }),
            r.transform@.scale == (SVec2 { x: UNIT as int, y: UNIT as int }),
            transform_wf(r.transform@),
    ;

    /// Scales the shape componentwise, in subunits.
    fn scaled(self, scale: Vec2<i64>) -> (r: TransformedShape<Self>)
        requires
            -crate::math::transf::S_MAX <= scale.x <= crate::math::transf::S_MAX,
            -crate::math::transf::S_MAX <= scale.y <= crate::math::transf::S_MAX,
        ensures
            r.a == self,
            r.transform@.scale == scale@,
            r.transform@.translation == (SVec2 { x: 0, y: 0 }),
            r.transform@.rot_sin == 0,
            r.transform@.rot_cos == UNIT,
            transform_wf(r.transform@),
    ;
}

impl<T: Shape> IntoTransformed for T {
    fn moved(self, translation: Vec2<i64>) -> (r: TransformedShape<Self>) {
        TransformedShape::new(self, Transform::mov(translation))
    }

    fn rotated(self, rot_sin: i64, rot_cos: i64) -> (r: TransformedShape<Self>) {
        TransformedShape::new(self, Transform::rot(rot_sin, rot_cos))
    }

    fn scaled(self, scale: Vec2<i64>) -> (r: TransformedShape<Self>) {
        TransformedShape::new(self, Transform::scale(scale))
    }
}

} // verus!

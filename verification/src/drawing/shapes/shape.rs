//! The shape capability: every node of a composition tree answers distance
//! queries through `frag` and reports a bounding box through
//! `bounding_box`, both pinned to specification-level counterparts.

use vstd::prelude::*;
use crate::drawing::color::Color;
use crate::math::fixed::{DMAX, HALF, UNIT};
use crate::math::rect::{cheb, Rect, SRect};
use crate::math::vector::{SVec2, Vec2};

verus! {

/// Mathematical image of a fragment: a signed distance in subunits, as an
/// unbounded integer, together with a color.
pub struct SFrag {
    pub dist: int,
    pub color: Color,
}

/// The per-query result of evaluating a shape at a point: a signed
/// distance in subunits of 1/256 pixel (negative inside, zero on the
/// boundary, positive outside) and a color.
#[derive(Debug, Clone, Copy, PartialEq, Eq, Structural)]
pub struct Fragment {
    pub dist: i64,
    pub color: Color,
}

impl View for Fragment {
    type V = SFrag;

    open spec fn view(&self) -> SFrag {
        SFrag { dist: self.dist as int, color: self.color }
    }
}

impl Fragment {
    /// Builds a fragment from a distance and a color.
    pub fn new(dist: i64, color: Color) -> (r: Self)
        ensures
            r.dist == dist,
            r.color == color,
    {
        Self { dist, color }
    }

    /// Builds a fragment carrying the default (white) color.
    pub fn with_default_color(dist: i64) -> (r: Self)
        ensures
            r.dist == dist,
            r.color == default_color(),
    {
        Self::new(dist, Color::white())
    }
}

/// The color a primitive assigns when no `ColoredShape` overrides it.
pub open spec fn default_color() -> Color {
    Color { r: 255u8, g: 255u8, b: 255u8, a: 255u8 }
}

/// Both coordinates of the point fit the pixel coordinate type.
pub open spec fn in_pixel_range(p: SVec2) -> bool {
    i32::MIN <= p.x <= i32::MAX && i32::MIN <= p.y <= i32::MAX
}

/// The capability every node in a shape composition tree implements.
///
/// `s_frag` and `s_bbox` give the mathematical meaning of a node; the
/// executable `frag` and `bounding_box` are proved to agree with them
/// exactly. Two laws accompany the meaning: every distance stays within
/// `DMAX`, and for the well-behaved class singled out by `bbox_sound` the
/// reported bounding box covers the shape with half a pixel to spare.
pub trait Shape {
    /// Structural well-formedness: what the node's parameters must satisfy
    /// for its queries to be meaningful on this machine.
    spec fn wf(&self) -> bool;

    /// The fragment this shape answers at a point, as mathematics.
    spec fn s_frag(&self, p: SVec2) -> SFrag;

    /// The bounding box this shape reports, as mathematics.
    spec fn s_bbox(&self) -> SRect;

    /// The class of shapes whose bounding box is sound: inversions,
    /// negative stroke widths and non-translation transforms are outside
    /// it, since each can push inside-points beyond the reported box.
    spec fn bbox_sound(&self) -> bool;

    /// Evaluates the shape at a point.
    fn frag(&self, v: Vec2<i32>) -> (r: Fragment)
        requires
            self.wf(),
        ensures
            r@ == self.s_frag(v@),
    ;

    /// Reports a rectangle meant to bound the region the shape fills.
    fn bounding_box(&self) -> (r: Rect<i32>)
        requires
            self.wf(),
        ensures
            r@ == self.s_bbox(),
    ;

    /// Whether the point counts as inside the shape, at the half-pixel
    /// threshold the rasterizer paints with.
    fn contains(&self, v: Vec2<i32>) -> (r: bool)
        requires
            self.wf(),
        ensures
            r == (self.s_frag(v@).dist < HALF),
    {
        let f = self.frag(v);
        f.dist < HALF
    }

    /// Every distance the shape answers stays within `DMAX`, so that the
    /// combinators above it can do arithmetic without overflow.
    proof fn lemma_frag_bounded(&self, p: SVec2)
        requires
            self.wf(),
            in_pixel_range(p),
        ensures
            -DMAX <= self.s_frag(p).dist <= DMAX,
    ;

    /// The covering law: at any pixel `k >= 1` whole pixels outside the
    /// reported bounding box, the distance is at least `k` pixels, less
    /// half a pixel of rounding. In particular no such pixel is contained.
    proof fn lemma_bbox_covers(&self, p: SVec2)
        requires
            self.wf(),
            self.bbox_sound(),
            in_pixel_range(p),
            cheb(p, self.s_bbox()) >= 1,
        ensures
            self.s_frag(p).dist >= UNIT * cheb(p, self.s_bbox()) - HALF,
    ;
}

} // verus!

//! Axis-aligned rectangles. A rectangle whose `top_left` exceeds its
//! `bot_right` on some axis denotes an empty region; combinators produce
//! such rectangles freely and consumers treat the iteration range as empty.

use vstd::prelude::*;
use super::fixed::clamp_pix;
use super::vector::{vmax, vmin, MaxMin, SVec2, Vec2};

verus! {

/// Mathematical image of a rectangle: both corners as unbounded integers.
pub struct SRect {
    pub tl: SVec2,
    pub br: SVec2,
}

/// An axis-aligned rectangle given by its two corners.
#[derive(Debug, Clone, Copy, PartialEq, Eq)]
pub struct Rect<T> {
    pub top_left: Vec2<T>,
    pub bot_right: Vec2<T>,
}

/// Builds a rectangle from its two corners.
pub fn rect<T>(top_left: Vec2<T>, bot_right: Vec2<T>) -> (r: Rect<T>)
    ensures
        r.top_left == top_left,
        r.bot_right == bot_right,
{
    Rect::new(top_left, bot_right)
}

impl<T> Rect<T> {
    /// Builds a rectangle from its two corners.
    pub fn new(top_left: Vec2<T>, bot_right: Vec2<T>) -> (r: Self)
        ensures
            r.top_left == top_left,
            r.bot_right == bot_right,
    {
        Self { top_left, bot_right }
    }
}

impl View for Rect<i32> {
    type V = SRect;

    open spec fn view(&self) -> SRect {
        SRect { tl: self.top_left@, br: self.bot_right@ }
    }
}

impl<T: MaxMin> Rect<T> {
    /// Union of two bounding boxes: the smallest rectangle holding both.
    pub fn combine(self, rhs: Self) -> (r: Self)
        ensures
            r.top_left == vmin(self.top_left, rhs.top_left),
            r.bot_right == vmax(self.bot_right, rhs.bot_right),
    {
        Self {
            top_left: self.top_left.min(rhs.top_left),
            bot_right: self.bot_right.max(rhs.bot_right),
        }
    }

    /// Intersection of two rectangles; may yield an empty rectangle, which
    /// is the expected and only signal for "nothing to draw".
    pub fn intersection(self, rhs: Self) -> (r: Self)
        ensures
            r.top_left == vmax(self.top_left, rhs.top_left),
            r.bot_right == vmin(self.bot_right, rhs.bot_right),
    {
        Self {
            top_left: self.top_left.max(rhs.top_left),
            bot_right: self.bot_right.min(rhs.bot_right),
        }
    }
}

/// Larger of two unbounded integers.
pub open spec fn max_i(a: int, b: int) -> int {
    if a >= b {
        a
    } else {
        b
    }
}

/// Smaller of two unbounded integers.
pub open spec fn min_i(a: int, b: int) -> int {
    if a <= b {
        a
    } else {
        b
    }
}

/// Distance from a coordinate to the (possibly empty) interval `lo..=hi`,
/// measured along one axis. Positive outside, zero inside; an empty
/// interval is at positive distance from every coordinate.
pub open spec fn axis_dist(x: int, lo: int, hi: int) -> int {
    max_i(lo - x, max_i(x - hi, 0))
}

/// Chebyshev distance from a point to a rectangle: how many whole pixels
/// of axis-aligned travel separate the point from the rectangle.
pub open spec fn cheb(p: SVec2, r: SRect) -> int {
    max_i(axis_dist(p.x, r.tl.x, r.br.x), axis_dist(p.y, r.tl.y, r.br.y))
}

/// The point lies between the rectangle's corners on both axes.
pub open spec fn inside(p: SVec2, r: SRect) -> bool {
    r.tl.x <= p.x <= r.br.x && r.tl.y <= p.y <= r.br.y
}

/// Union of two rectangles at the specification level.
pub open spec fn combine_s(a: SRect, b: SRect) -> SRect {
    SRect {
        tl: SVec2 { x: min_i(a.tl.x, b.tl.x), y: min_i(a.tl.y, b.tl.y) },
        br: SVec2 { x: max_i(a.br.x, b.br.x), y: max_i(a.br.y, b.br.y) },
    }
}

/// Intersection of two rectangles at the specification level.
pub open spec fn intersect_s(a: SRect, b: SRect) -> SRect {
    SRect {
        tl: SVec2 { x: max_i(a.tl.x, b.tl.x), y: max_i(a.tl.y, b.tl.y) },
        br: SVec2 { x: min_i(a.br.x, b.br.x), y: min_i(a.br.y, b.br.y) },
    }
}

/// The rectangle grown by `k` pixels on every side.
pub open spec fn inflate_s(r: SRect, k: int) -> SRect {
    SRect {
        tl: SVec2 { x: r.tl.x - k, y: r.tl.y - k },
        br: SVec2 { x: r.br.x + k, y: r.br.y + k },
    }
}

/// The rectangle with both corners clipped into the pixel range.
pub open spec fn clamp_rect_s(r: SRect) -> SRect {
    SRect {
        tl: SVec2 { x: clamp_pix(r.tl.x), y: clamp_pix(r.tl.y) },
        br: SVec2 { x: clamp_pix(r.br.x), y: clamp_pix(r.br.y) },
    }
}

/// Clipping a rectangle into the pixel range moves no in-range point
/// farther from it, and distances to an in-range rectangle stay modest.
pub proof fn lemma_cheb_clamp(p: SVec2, r: SRect)
    requires
        i32::MIN <= p.x <= i32::MAX,
        i32::MIN <= p.y <= i32::MAX,
    ensures
        cheb(p, clamp_rect_s(r)) <= cheb(p, r),
        cheb(p, clamp_rect_s(r)) <= 0x2_0000_0000,
{
}

/// A point is no farther from the union of two boxes than from either box.
pub proof fn lemma_cheb_combine(p: SVec2, a: SRect, b: SRect)
    ensures
        cheb(p, combine_s(a, b)) <= cheb(p, a),
        cheb(p, combine_s(a, b)) <= cheb(p, b),
{
}

/// Distance to an intersection of boxes is the larger of the two distances.
pub proof fn lemma_cheb_intersect(p: SVec2, a: SRect, b: SRect)
    ensures
        cheb(p, intersect_s(a, b)) == max_i(cheb(p, a), cheb(p, b)),
{
}

/// Growing a box by `k >= 0` moves no point farther from it, and a point
/// still outside the grown box was more than `k` farther from the ungrown one.
pub proof fn lemma_cheb_inflate(p: SVec2, r: SRect, k: int)
    requires
        k >= 0,
    ensures
        cheb(p, inflate_s(r, k)) <= cheb(p, r),
        cheb(p, inflate_s(r, k)) > 0 ==> cheb(p, r) >= cheb(p, inflate_s(r, k)) + k,
{
}

/// A point at Chebyshev distance zero lies inside the rectangle.
pub proof fn lemma_cheb_inside(p: SVec2, r: SRect)
    ensures
        inside(p, r) <==> cheb(p, r) == 0,
{
}

} // verus!

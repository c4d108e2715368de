//! An axis-aligned box, given by its full size, with the exact box
//! distance: perpendicular distance to the nearest edge or corner outside,
//! negative distance to the nearest edge inside.

use vstd::prelude::*;
use crate::drawing::shapes::shape::{default_color, in_pixel_range, Fragment, SFrag, Shape};
use crate::math::fixed::{
    abs_int, lemma_sqrt_rnd_ge, lemma_sqrt_rnd_le, sqrt_rnd, sqrt_rnd_s, DMAX, HALF, UNIT,
};
use crate::math::rect::{axis_dist, cheb, max_i, min_i, rect, Rect, SRect};
use crate::math::vector::{vec2, SVec2, Vec2};

verus! {

/// A box of the given size, centered on the origin; its half extent along
/// each axis is half the size, to subunit precision.
#[derive(Debug, Clone, Copy, PartialEq, Eq)]
pub struct RectShape {
    pub size: Vec2<u32>,
}

impl RectShape {
    /// Builds a box of the given size.
    pub fn new(size: Vec2<u32>) -> (r: Self)
        ensures
            r.size == size,
    {
        Self { size }
    }
}

/// Distance from a point to the box boundary, in subunits. With
/// `d = |p| - half_extent` taken componentwise, it is the rounded length
/// of `max(d, 0)` plus `min(max(d.x, d.y), 0)`.
pub open spec fn box_dist(p: SVec2, size: SVec2) -> int {
    let dx = abs_int(p.x) * UNIT - size.x * HALF;
    let dy = abs_int(p.y) * UNIT - size.y * HALF;
    let ox = max_i(dx, 0);
    let oy = max_i(dy, 0);
    sqrt_rnd_s((ox * ox + oy * oy) as nat) + min_i(max_i(dx, dy), 0)
}

impl Shape for RectShape {
    open spec fn wf(&self) -> bool {
        self.size.x <= i32::MAX && self.size.y <= i32::MAX
    }

    open spec fn s_frag(&self, p: SVec2) -> SFrag {
        SFrag { dist: box_dist(p, self.size@), color: default_color() }
    }

    open spec fn s_bbox(&self) -> SRect {
        SRect {
            tl: SVec2 { x: -(self.size@.x / 2) - 1, y: -(self.size@.y / 2) - 1 },
            br: SVec2 { x: self.size@.x / 2 + 1, y: self.size@.y / 2 + 1 },
        }
    }

    open spec fn bbox_sound(&self) -> bool {
        true
    }

    fn frag(&self, v: Vec2<i32>) -> (r: Fragment) {
        let cx = (self.size.x as i64) * 128;
        let cy = (self.size.y as i64) * 128;
        let ax: i64 = if v.x < 0 { -(v.x as i64) } else { v.x as i64 };
        let ay: i64 = if v.y < 0 { -(v.y as i64) } else { v.y as i64 };
        let dx = ax * 256 - cx;
        let dy = ay * 256 - cy;
        let ox: i64 = if dx > 0 { dx } else { 0 };
        let oy: i64 = if dy > 0 { dy } else { 0 };
        proof {
            assert((ox as int) * (ox as int) + (oy as int) * (oy as int)
                <= 0x100_0000_0000 * 0x100_0000_0000 && (ox as int) * (ox as int) >= 0
                && (oy as int) * (oy as int) >= 0) by (nonlinear_arith)
                requires
                    0 <= ox <= 0x80_0000_0000,
                    0 <= oy <= 0x80_0000_0000,
            ;
        }
        let n: u128 = (ox as u128) * (ox as u128) + (oy as u128) * (oy as u128);
        let s = sqrt_rnd(n);
        proof {
            lemma_sqrt_rnd_le(n as nat, 0x100_0000_0000);
            assert(s <= 0x100_0000_0000) by (nonlinear_arith)
                requires
                    s == sqrt_rnd_s(n as nat),
                    sqrt_rnd_s(n as nat) <= 0x100_0000_0000,
            ;
        }
        let m: i64 = if dx >= dy { dx } else { dy };
        let inner: i64 = if m < 0 { m } else { 0 };
        let dist = s as i64 + inner;
        Fragment::with_default_color(dist)
    }

    fn bounding_box(&self) -> (r: Rect<i32>) {
        let hx = (self.size.x / 2) as i32;
        let hy = (self.size.y / 2) as i32;
        rect(vec2(-hx - 1, -hy - 1), vec2(hx + 1, hy + 1))
    }

    proof fn lemma_frag_bounded(&self, p: SVec2) {
        let dx = abs_int(p.x) * UNIT - self.size@.x * HALF;
        let dy = abs_int(p.y) * UNIT - self.size@.y * HALF;
        let ox = max_i(dx, 0);
        let oy = max_i(dy, 0);
        let n = (ox * ox + oy * oy) as nat;
        assert(n <= 0x100_0000_0000 * 0x100_0000_0000 && n >= 0) by (nonlinear_arith)
            requires
                0 <= ox <= 0x80_0000_0000,
                0 <= oy <= 0x80_0000_0000,
                n == (ox * ox + oy * oy) as nat,
        ;
        lemma_sqrt_rnd_le(n, 0x100_0000_0000);
    }

    proof fn lemma_bbox_covers(&self, p: SVec2) {
        let sx = self.size@.x;
        let sy = self.size@.y;
        let dx = abs_int(p.x) * UNIT - sx * HALF;
        let dy = abs_int(p.y) * UNIT - sy * HALF;
        let ox = max_i(dx, 0);
        let oy = max_i(dy, 0);
        let n = (ox * ox + oy * oy) as nat;
        let c = cheb(p, self.s_bbox());
        if axis_dist(p.x, -(sx / 2) - 1, sx / 2 + 1) >= axis_dist(p.y, -(sy / 2) - 1, sy / 2 + 1) {
            assert(abs_int(p.x) >= sx / 2 + 1 + c);
            assert(dx >= UNIT * c + HALF) by (nonlinear_arith)
                requires
                    dx == abs_int(p.x) * UNIT - sx * HALF,
                    abs_int(p.x) >= sx / 2 + 1 + c,
                    sx >= 0,
                    2 * (sx / 2) >= sx - 1,
                    UNIT == 256,
                    HALF == 128,
            ;
            assert(ox * ox <= n) by (nonlinear_arith)
                requires
                    ox >= 0,
                    oy >= 0,
                    n == (ox * ox + oy * oy) as nat,
            ;
            lemma_sqrt_rnd_ge(n, ox as nat);
        } else {
            assert(abs_int(p.y) >= sy / 2 + 1 + c);
            assert(dy >= UNIT * c + HALF) by (nonlinear_arith)
                requires
                    dy == abs_int(p.y) * UNIT - sy * HALF,
                    abs_int(p.y) >= sy / 2 + 1 + c,
                    sy >= 0,
                    2 * (sy / 2) >= sy - 1,
                    UNIT == 256,
                    HALF == 128,
            ;
            assert(oy * oy <= n) by (nonlinear_arith)
                requires
                    ox >= 0,
                    oy >= 0,
                    n == (ox * ox + oy * oy) as nat,
            ;
            lemma_sqrt_rnd_ge(n, oy as nat);
        }
    }
}

} // verus!

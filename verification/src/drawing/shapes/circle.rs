//! A circle centered on the origin, with the closed-form distance
//! `length(p) - radius`.

use vstd::prelude::*;
use crate::drawing::shapes::shape::{default_color, in_pixel_range, Fragment, SFrag, Shape};
use crate::math::fixed::{
    lemma_sqrt_rnd_ge, lemma_sqrt_rnd_le, sqrt_rnd, sqrt_rnd_s, DMAX, HALF, UNIT,
};
use crate::math::rect::{cheb, max_i, rect, Rect, SRect};
use crate::math::vector::{vec2, SVec2, Vec2};

verus! {

/// A circle of the given radius, centered on the origin.
#[derive(Debug, Clone, Copy, PartialEq, Eq, Structural)]
pub struct Circle {
    pub radius: i32,
}

impl Circle {
    /// Builds a circle of the given radius.
    pub fn new(radius: i32) -> (r: Self)
        ensures
            r.radius == radius,
    {
        Self { radius }
    }
}

/// Distance from a point to the circle boundary, in subunits: the rounded
/// length of the point's position vector, less the radius.
pub open spec fn circle_dist(p: SVec2, radius: int) -> int {
    sqrt_rnd_s((UNIT * UNIT * (p.x * p.x + p.y * p.y)) as nat) - radius * UNIT
}

impl Shape for Circle {
    open spec fn wf(&self) -> bool {
        self.radius > i32::MIN
    }

    open spec fn s_frag(&self, p: SVec2) -> SFrag {
        SFrag { dist: circle_dist(p, self.radius as int), color: default_color() }
    }

    open spec fn s_bbox(&self) -> SRect {
        SRect {
            tl: SVec2 { x: -self.radius as int, y: -self.radius as int },
            br: SVec2 { x: self.radius as int, y: self.radius as int },
        }
    }

    open spec fn bbox_sound(&self) -> bool {
        true
    }

    fn frag(&self, v: Vec2<i32>) -> (r: Fragment) {
        let ax: i64 = if v.x < 0 { -(v.x as i64) } else { v.x as i64 };
        let ay: i64 = if v.y < 0 { -(v.y as i64) } else { v.y as i64 };
        proof {
            assert((ax as int) * (ax as int) == v@.x * v@.x
                && (ay as int) * (ay as int) == v@.y * v@.y
                && (ax as int) * (ax as int) <= 0x4000_0000_0000_0000
                && (ay as int) * (ay as int) <= 0x4000_0000_0000_0000) by (nonlinear_arith)
                requires
                    ax == if v@.x < 0 { -v@.x } else { v@.x },
                    ay == if v@.y < 0 { -v@.y } else { v@.y },
                    -0x8000_0000 <= v@.x <= 0x7fff_ffff,
                    -0x8000_0000 <= v@.y <= 0x7fff_ffff,
            ;
        }
        let n: u128 = (ax as u128) * (ax as u128) + (ay as u128) * (ay as u128);
        let n2: u128 = 65536 * n;
        let s = sqrt_rnd(n2);
        proof {
            lemma_sqrt_rnd_le(n2 as nat, 0x200_0000_0000);
            assert(s <= 0x200_0000_0000) by (nonlinear_arith)
                requires
                    s == sqrt_rnd_s(n2 as nat),
                    sqrt_rnd_s(n2 as nat) <= 0x200_0000_0000,
            ;
        }
        let dist = s as i64 - (self.radius as i64) * 256;
        Fragment::with_default_color(dist)
    }

    fn bounding_box(&self) -> (r: Rect<i32>) {
        let r = self.radius;
        rect(vec2(-r, -r), vec2(r, r))
    }

    proof fn lemma_frag_bounded(&self, p: SVec2) {
        let n = (UNIT * UNIT * (p.x * p.x + p.y * p.y)) as nat;
        assert(n <= 0x200_0000_0000 * 0x200_0000_0000) by (nonlinear_arith)
            requires
                n == (UNIT * UNIT * (p.x * p.x + p.y * p.y)) as nat,
                UNIT == 256,
                -0x8000_0000 <= p.x <= 0x7fff_ffff,
                -0x8000_0000 <= p.y <= 0x7fff_ffff,
        ;
        lemma_sqrt_rnd_le(n, 0x200_0000_0000);
    }

    proof fn lemma_bbox_covers(&self, p: SVec2) {
        let r = self.radius as int;
        let n = (UNIT * UNIT * (p.x * p.x + p.y * p.y)) as nat;
        let m = max_i(if p.x < 0 { -p.x } else { p.x }, if p.y < 0 { -p.y } else { p.y });
        assert(cheb(p, self.s_bbox()) == max_i(m - r, 0));
        let c = cheb(p, self.s_bbox());
        assert((UNIT * m) * (UNIT * m) <= n) by (nonlinear_arith)
            requires
                m == max_i(if p.x < 0 { -p.x } else { p.x }, if p.y < 0 { -p.y } else { p.y }),
                n == (UNIT * UNIT * (p.x * p.x + p.y * p.y)) as nat,
                UNIT == 256,
        ;
        lemma_sqrt_rnd_ge(n, (UNIT * m) as nat);
        assert(sqrt_rnd_s(n) >= UNIT * m);
        assert(UNIT * m - r * UNIT >= UNIT * c) by (nonlinear_arith)
            requires
                m - r == c,
                UNIT == 256,
        ;
    }
}

} // verus!

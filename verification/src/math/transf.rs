//! Affine transforms in fixed point: a componentwise scale, a rotation
//! given by its sine and cosine, then a translation, with the exact
//! analytic inverse. All components are measured in subunits of 1/256, so
//! a rotation angle is represented by its sine and cosine, each a subunit
//! value in `[-UNIT, UNIT]`.

use vstd::prelude::*;
use crate::math::fixed::{
    abs_int, lemma_rnd_div_abs_any, lemma_rnd_div_exact, lemma_rnd_div_range, rnd_div, rnd_div_s,
    UNIT,
};
use crate::math::vector::{vec2, SVec2, Vec2};

verus! {

/// Largest translation magnitude a transform may carry, in subunits.
pub const T_MAX: i64 = 0x100_0000_0000;

/// Largest scale magnitude a transform may carry, in subunits; a scale of
/// `UNIT` is the identity.
pub const S_MAX: i64 = 0x20_0000;

/// Largest position magnitude `apply_to_pos` and `apply_inv_to_pos`
/// accept, in subunits; every pixel coordinate converted to subunits fits.
pub const P_MAX: i64 = 0x80_0000_0000;

/// Mathematical image of a transform.
pub struct STransform {
    pub translation: SVec2,
    pub rot_sin: int,
    pub rot_cos: int,
    pub scale: SVec2,
}

/// Represents `p' = rotate(rotation) * (scale (.) p) + translation`. The
/// rotation is carried as its sine and cosine in subunits.
#[derive(Debug, Clone, Copy, PartialEq, Eq)]
pub struct Transform {
    pub translation: Vec2<i64>,
    pub rot_sin: i64,
    pub rot_cos: i64,
    pub scale: Vec2<i64>,
}

impl View for Transform {
    type V = STransform;

    open spec fn view(&self) -> STransform {
        STransform {
            translation: self.translation@,
            rot_sin: self.rot_sin as int,
            rot_cos: self.rot_cos as int,
            scale: self.scale@,
        }
    }
}

/// The transform's components are small enough for its arithmetic to stay
/// in range on any position up to `P_MAX`.
pub open spec fn transform_wf(t: STransform) -> bool {
    &&& abs_int(t.translation.x) <= T_MAX
    &&& abs_int(t.translation.y) <= T_MAX
    &&& abs_int(t.rot_sin) <= UNIT
    &&& abs_int(t.rot_cos) <= UNIT
    &&& abs_int(t.scale.x) <= S_MAX
    &&& abs_int(t.scale.y) <= S_MAX
}

/// A pure translation: no rotation and the identity scale.
pub open spec fn is_translation(t: STransform) -> bool {
    t.rot_sin == 0 && t.rot_cos == UNIT && t.scale.x == UNIT && t.scale.y == UNIT
}

/// Componentwise scaling of a position, rounding each product back to
/// subunits.
pub open spec fn scale_pos_s(s: SVec2, p: SVec2) -> SVec2 {
    SVec2 { x: rnd_div_s(s.x * p.x, UNIT as int), y: rnd_div_s(s.y * p.y, UNIT as int) }
}

/// Rotation of a position by the angle whose sine and cosine are given in
/// subunits, rounding each component back to subunits.
pub open spec fn rot_pos_s(rot_sin: int, rot_cos: int, p: SVec2) -> SVec2 {
    SVec2 {
        x: rnd_div_s(rot_cos * p.x - rot_sin * p.y, UNIT as int),
        y: rnd_div_s(rot_sin * p.x + rot_cos * p.y, UNIT as int),
    }
}

/// Componentwise division of a position by a scale, rounding to subunits.
pub open spec fn unscale_pos_s(s: SVec2, p: SVec2) -> SVec2 {
    SVec2 { x: rnd_div_s(p.x * UNIT, s.x), y: rnd_div_s(p.y * UNIT, s.y) }
}

/// Scale, rotate, then translate.
pub open spec fn apply_to_pos_s(t: STransform, p: SVec2) -> SVec2 {
    let r = rot_pos_s(t.rot_sin, t.rot_cos, scale_pos_s(t.scale, p));
    SVec2 { x: r.x + t.translation.x, y: r.y + t.translation.y }
}

/// Scale then rotate, omitting the translation term: the transform of a
/// direction.
pub open spec fn apply_to_dir_s(t: STransform, p: SVec2) -> SVec2 {
    rot_pos_s(t.rot_sin, t.rot_cos, scale_pos_s(t.scale, p))
}

/// Untranslate, rotate back, then divide by the scale: the exact analytic
/// inverse pipeline.
pub open spec fn apply_inv_to_pos_s(t: STransform, p: SVec2) -> SVec2 {
    let m = SVec2 { x: p.x - t.translation.x, y: p.y - t.translation.y };
    unscale_pos_s(t.scale, rot_pos_s(-t.rot_sin, t.rot_cos, m))
}

/// Rotate back and divide by the scale, omitting the translation term.
pub open spec fn apply_inv_to_dir_s(t: STransform, p: SVec2) -> SVec2 {
    unscale_pos_s(t.scale, rot_pos_s(-t.rot_sin, t.rot_cos, p))
}

/// A pure translation moves every position by exactly its translation
/// vector, in both directions: the fixed-point pipeline introduces no
/// rounding when the scale is the identity and the rotation is zero.
pub proof fn lemma_translation_apply(t: STransform, v: SVec2)
    requires
        is_translation(t),
    ensures
        apply_to_pos_s(t, v) == (SVec2 {
            x: v.x + t.translation.x,
            y: v.y + t.translation.y,
        }),
        apply_inv_to_pos_s(t, v) == (SVec2 {
            x: v.x - t.translation.x,
            y: v.y - t.translation.y,
        }),
{
    lemma_rnd_div_exact(v.x, 256);
    lemma_rnd_div_exact(v.y, 256);
    let m = SVec2 { x: v.x - t.translation.x, y: v.y - t.translation.y };
    lemma_rnd_div_exact(m.x, 256);
    lemma_rnd_div_exact(m.y, 256);
}

impl Transform {
    /// The identity transform: applying it changes nothing.
    pub fn identity() -> (r: Self)
        ensures
            r@ == (STransform {
                translation: SVec2 { x: 0, y: 0 },
                rot_sin: 0,
                rot_cos: UNIT as int,
                scale: SVec2 { x: UNIT as int, y: UNIT as int },
            }),
            transform_wf(r@),
            is_translation(r@),
    {
        Self { translation: vec2(0, 0), rot_sin: 0, rot_cos: UNIT, scale: vec2(UNIT, UNIT) }
    }

    /// Builds a transform from all three parts.
    pub fn mov_rot_scale(translation: Vec2<i64>, rot_sin: i64, rot_cos: i64, scale: Vec2<i64>)
        -> (r: Self)
        requires
            -T_MAX <= translation.x <= T_MAX,
            -T_MAX <= translation.y <= T_MAX,
            -UNIT <= rot_sin <= UNIT,
            -UNIT <= rot_cos <= UNIT,
            -S_MAX <= scale.x <= S_MAX,
            -S_MAX <= scale.y <= S_MAX,
        ensures
            r.translation == translation,
            r.rot_sin == rot_sin,
            r.rot_cos == rot_cos,
            r.scale == scale,
            transform_wf(r@),
    {
        Self { translation, rot_sin, rot_cos, scale }
    }

    /// A pure translation by the given subunit vector.
    pub fn mov(translation: Vec2<i64>) -> (r: Self)
        requires
            -T_MAX <= translation.x <= T_MAX,
            -T_MAX <= translation.y <= T_MAX,
        ensures
            r.translation == translation,
            transform_wf(r@),
            is_translation(r@),
    {
        Self::mov_rot_scale(translation, 0, UNIT, vec2(UNIT, UNIT))
    }

    /// A pure rotation by the angle whose sine and cosine are given in
    /// subunits.
    pub fn rot(rot_sin: i64, rot_cos: i64) -> (r: Self)
        requires
            -UNIT <= rot_sin <= UNIT,
            -UNIT <= rot_cos <= UNIT,
        ensures
            r.rot_sin == rot_sin,
            r.rot_cos == rot_cos,
            r.translation == (Vec2 { x: 0i64, y: 0i64 }),
            r.scale == (Vec2 { x: UNIT, y: UNIT }),
            transform_wf(r@),
    {
        Self::mov_rot_scale(vec2(0, 0), rot_sin, rot_cos, vec2(UNIT, UNIT))
    }

    /// A pure componentwise scale, in subunits.
    pub fn scale(scale: Vec2<i64>) -> (r: Self)
        requires
            -S_MAX <= scale.x <= S_MAX,
            -S_MAX <= scale.y <= S_MAX,
        ensures
            r.scale == scale,
            r.translation == (Vec2 { x: 0i64, y: 0i64 }),
            r.rot_sin == 0,
            r.rot_cos == UNIT,
            transform_wf(r@),
    {
        Self::mov_rot_scale(vec2(0, 0), 0, UNIT, scale)
    }

    /// A pure uniform scale, in subunits.
    pub fn uscale(scale: i64) -> (r: Self)
        requires
            -S_MAX <= scale <= S_MAX,
        ensures
            r.scale == (Vec2 { x: scale, y: scale }),
            r.translation == (Vec2 { x: 0i64, y: 0i64 }),
            r.rot_sin == 0,
            r.rot_cos == UNIT,
            transform_wf(r@),
    {
        Self::scale(vec2(scale, scale))
    }

    /// Maps a position into the transformed space: scale, rotate,
    /// translate.
    pub fn apply_to_pos(&self, pos: Vec2<i64>) -> (r: Vec2<i64>)
        requires
            transform_wf(self@),
            -P_MAX <= pos.x <= P_MAX,
            -P_MAX <= pos.y <= P_MAX,
        ensures
            r@ == apply_to_pos_s(self@, pos@),
            -0x40_0000_0000_0000 <= r.x <= 0x40_0000_0000_0000,
            -0x40_0000_0000_0000 <= r.y <= 0x40_0000_0000_0000,
    {
        let d = self.apply_to_dir(pos);
        Vec2::new(d.x + self.translation.x, d.y + self.translation.y)
    }

    /// Maps a direction into the transformed space: scale and rotate,
    /// without the translation term.
    pub fn apply_to_dir(&self, dir: Vec2<i64>) -> (r: Vec2<i64>)
        requires
            transform_wf(self@),
            -P_MAX <= dir.x <= P_MAX,
            -P_MAX <= dir.y <= P_MAX,
        ensures
            r@ == apply_to_dir_s(self@, dir@),
            -0x20_0000_0000_0000 <= r.x <= 0x20_0000_0000_0000,
            -0x20_0000_0000_0000 <= r.y <= 0x20_0000_0000_0000,
    {
        proof {
            assert(abs_int(self@.scale.x * dir@.x) <= 0x1000_0000_0000_0000
                && abs_int(self@.scale.y * dir@.y) <= 0x1000_0000_0000_0000) by (nonlinear_arith)
                requires
                    abs_int(self@.scale.x) <= S_MAX,
                    abs_int(self@.scale.y) <= S_MAX,
                    -P_MAX <= dir@.x <= P_MAX,
                    -P_MAX <= dir@.y <= P_MAX,
                    S_MAX == 0x20_0000,
                    P_MAX == 0x80_0000_0000,
            ;
        }
        let sx = rnd_div(self.scale.x * dir.x, UNIT);
        let sy = rnd_div(self.scale.y * dir.y, UNIT);
        proof {
            lemma_rnd_div_range(self@.scale.x * dir@.x, UNIT as int);
            lemma_rnd_div_range(self@.scale.y * dir@.y, UNIT as int);
            assert(abs_int(sx as int) <= 0x10_0000_0000_0000 && abs_int(sy as int)
                <= 0x10_0000_0000_0000) by (nonlinear_arith)
                requires
                    2 * 256 * (sx as int) - 256 <= 2 * (self@.scale.x * dir@.x) <= 2 * 256 * (
                    sx as int) + 256,
                    2 * 256 * (sy as int) - 256 <= 2 * (self@.scale.y * dir@.y) <= 2 * 256 * (
                    sy as int) + 256,
                    sx == rnd_div_s(self@.scale.x * dir@.x, 256),
                    sy == rnd_div_s(self@.scale.y * dir@.y, 256),
                    abs_int(self@.scale.x * dir@.x) <= 0x1000_0000_0000_0000,
                    abs_int(self@.scale.y * dir@.y) <= 0x1000_0000_0000_0000,
            ;
            assert(abs_int(self@.rot_cos * (sx as int)) <= 0x1000_0000_0000_0000
                && abs_int(self@.rot_sin * (sy as int)) <= 0x1000_0000_0000_0000
                && abs_int(self@.rot_sin * (sx as int)) <= 0x1000_0000_0000_0000
                && abs_int(self@.rot_cos * (sy as int)) <= 0x1000_0000_0000_0000)
                by (nonlinear_arith)
                requires
                    abs_int(self@.rot_sin) <= 256,
                    abs_int(self@.rot_cos) <= 256,
                    abs_int(sx as int) <= 0x10_0000_0000_0000,
                    abs_int(sy as int) <= 0x10_0000_0000_0000,
            ;
        }
        let rx = rnd_div(self.rot_cos * sx - self.rot_sin * sy, UNIT);
        let ry = rnd_div(self.rot_sin * sx + self.rot_cos * sy, UNIT);
        proof {
            lemma_rnd_div_range(self@.rot_cos * (sx as int) - self@.rot_sin * (sy as int), 256);
            lemma_rnd_div_range(self@.rot_sin * (sx as int) + self@.rot_cos * (sy as int), 256);
        }
        Vec2::new(rx, ry)
    }

    /// Maps a position back out of the transformed space: untranslate,
    /// rotate back, divide by the scale. Caller contract: both scale
    /// components are nonzero, else the inverse is undefined.
    pub fn apply_inv_to_pos(&self, pos: Vec2<i64>) -> (r: Vec2<i64>)
        requires
            transform_wf(self@),
            self.scale.x != 0,
            self.scale.y != 0,
            -P_MAX <= pos.x <= P_MAX,
            -P_MAX <= pos.y <= P_MAX,
        ensures
            r@ == apply_inv_to_pos_s(self@, pos@),
            -0x10_0000_0000_0000 <= r.x <= 0x10_0000_0000_0000,
            -0x10_0000_0000_0000 <= r.y <= 0x10_0000_0000_0000,
    {
        let mx = pos.x - self.translation.x;
        let my = pos.y - self.translation.y;
        self.apply_inv_rot_scale(Vec2::new(mx, my))
    }

    /// Maps a direction back out of the transformed space, omitting the
    /// translation term. Caller contract: nonzero scale components.
    pub fn apply_inv_to_dir(&self, dir: Vec2<i64>) -> (r: Vec2<i64>)
        requires
            transform_wf(self@),
            self.scale.x != 0,
            self.scale.y != 0,
            -P_MAX <= dir.x <= P_MAX,
            -P_MAX <= dir.y <= P_MAX,
        ensures
            r@ == apply_inv_to_dir_s(self@, dir@),
            -0x10_0000_0000_0000 <= r.x <= 0x10_0000_0000_0000,
            -0x10_0000_0000_0000 <= r.y <= 0x10_0000_0000_0000,
    {
        self.apply_inv_rot_scale(dir)
    }

    /// Shared tail of the two inverse maps: rotate back, then divide by
    /// the scale.
    fn apply_inv_rot_scale(&self, m: Vec2<i64>) -> (r: Vec2<i64>)
        requires
            transform_wf(self@),
            self.scale.x != 0,
            self.scale.y != 0,
            -P_MAX - T_MAX <= m.x <= P_MAX + T_MAX,
            -P_MAX - T_MAX <= m.y <= P_MAX + T_MAX,
        ensures
            r@ == unscale_pos_s(self@.scale, rot_pos_s(-self@.rot_sin, self@.rot_cos, m@)),
            -0x10_0000_0000_0000 <= r.x <= 0x10_0000_0000_0000,
            -0x10_0000_0000_0000 <= r.y <= 0x10_0000_0000_0000,
    {
        proof {
            assert(abs_int(self@.rot_cos * m@.x) <= 0x2_0000_0000_0000
                && abs_int((-self@.rot_sin) * m@.y) <= 0x2_0000_0000_0000
                && abs_int((-self@.rot_sin) * m@.x) <= 0x2_0000_0000_0000
                && abs_int(self@.rot_cos * m@.y) <= 0x2_0000_0000_0000) by (nonlinear_arith)
                requires
                    abs_int(self@.rot_sin) <= 256,
                    abs_int(self@.rot_cos) <= 256,
                    -P_MAX - T_MAX <= m@.x <= P_MAX + T_MAX,
                    -P_MAX - T_MAX <= m@.y <= P_MAX + T_MAX,
                    P_MAX == 0x80_0000_0000,
                    T_MAX == 0x100_0000_0000,
            ;
        }
        let neg_sin = -self.rot_sin;
        let rx = rnd_div(self.rot_cos * m.x - neg_sin * m.y, UNIT);
        let ry = rnd_div(neg_sin * m.x + self.rot_cos * m.y, UNIT);
        proof {
            lemma_rnd_div_range(self@.rot_cos * m@.x - (-self@.rot_sin) * m@.y, 256);
            lemma_rnd_div_range((-self@.rot_sin) * m@.x + self@.rot_cos * m@.y, 256);
        }
        let ux = rnd_div(rx * UNIT, self.scale.x);
        let uy = rnd_div(ry * UNIT, self.scale.y);
        proof {
            lemma_rnd_div_abs_any(rx as int * 256, self@.scale.x);
            lemma_rnd_div_abs_any(ry as int * 256, self@.scale.y);
        }
        Vec2::new(ux, uy)
    }
}

} // verus!

//! Two-dimensional vectors over a single numeric kind, with componentwise
//! arithmetic, ordering helpers and widening / rounding conversions.

use vstd::prelude::*;
use vstd::arithmetic::div_mod::{
    lemma_div_nonincreasing, lemma_div_pos_is_pos, lemma_fundamental_div_mod,
    lemma_mod_division_less_than_divisor,
};
use crate::math::fixed::{abs_int, clamp_pix, clamp_to_i32, rnd_div, rnd_div_s};

verus! {

/// Mathematical image of a two-dimensional vector: both components as
/// unbounded integers.
pub struct SVec2 {
    pub x: int,
    pub y: int,
}

/// A two-dimensional vector; both components always share the same kind.
#[derive(Debug, Clone, Copy, PartialEq, Eq)]
pub struct Vec2<T> {
    pub x: T,
    pub y: T,
}

/// Builds a vector from its two components.
pub fn vec2<T>(x: T, y: T) -> (r: Vec2<T>)
    ensures
        r.x == x,
        r.y == y,
{
    Vec2::new(x, y)
}

impl<T> Vec2<T> {
    /// Builds a vector from its two components.
    pub fn new(x: T, y: T) -> (r: Self)
        ensures
            r.x == x,
            r.y == y,
    {
        Self { x, y }
    }
}

impl View for Vec2<i32> {
    type V = SVec2;

    open spec fn view(&self) -> SVec2 {
        SVec2 { x: self.x as int, y: self.y as int }
    }
}

impl View for Vec2<i64> {
    type V = SVec2;

    open spec fn view(&self) -> SVec2 {
        SVec2 { x: self.x as int, y: self.y as int }
    }
}

impl View for Vec2<u32> {
    type V = SVec2;

    open spec fn view(&self) -> SVec2 {
        SVec2 { x: self.x as int, y: self.y as int }
    }
}

/// Componentwise ordering operations, shared by every numeric kind a
/// vector or rectangle can hold.
pub trait MaxMin: Sized + Copy {
    /// The order the operations below select by.
    spec fn le(self, rhs: Self) -> bool;

    fn _max(self, rhs: Self) -> (r: Self)
        ensures
            r == (if self.le(rhs) { rhs } else { self }),
    ;

    fn _min(self, rhs: Self) -> (r: Self)
        ensures
            r == (if self.le(rhs) { self } else { rhs }),
    ;

    fn _clamp(self, lo: Self, hi: Self) -> (r: Self)
        requires
            lo.le(hi),
        ensures
            r == (if !lo.le(self) { lo } else if !self.le(hi) { hi } else { self }),
    ;
}

impl MaxMin for i32 {
    open spec fn le(self, rhs: Self) -> bool {
        self <= rhs
    }

    fn _max(self, rhs: Self) -> Self {
        if self <= rhs { rhs } else { self }
    }

    fn _min(self, rhs: Self) -> Self {
        if self <= rhs { self } else { rhs }
    }

    fn _clamp(self, lo: Self, hi: Self) -> Self {
        if self < lo { lo } else if self > hi { hi } else { self }
    }
}

impl MaxMin for u32 {
    open spec fn le(self, rhs: Self) -> bool {
        self <= rhs
    }

    fn _max(self, rhs: Self) -> Self {
        if self <= rhs { rhs } else { self }
    }

    fn _min(self, rhs: Self) -> Self {
        if self <= rhs { self } else { rhs }
    }

    fn _clamp(self, lo: Self, hi: Self) -> Self {
        if self < lo { lo } else if self > hi { hi } else { self }
    }
}

impl MaxMin for i64 {
    open spec fn le(self, rhs: Self) -> bool {
        self <= rhs
    }

    fn _max(self, rhs: Self) -> Self {
        if self <= rhs { rhs } else { self }
    }

    fn _min(self, rhs: Self) -> Self {
        if self <= rhs { self } else { rhs }
    }

    fn _clamp(self, lo: Self, hi: Self) -> Self {
        if self < lo { lo } else if self > hi { hi } else { self }
    }
}

impl Vec2<i32> {
    /// Componentwise sum.
    pub fn add(self, rhs: Self) -> (r: Self)
        requires
            i32::MIN <= self.x + rhs.x <= i32::MAX,
            i32::MIN <= self.y + rhs.y <= i32::MAX,
        ensures
            r@.x == self@.x + rhs@.x,
            r@.y == self@.y + rhs@.y,
    {
        Self { x: self.x + rhs.x, y: self.y + rhs.y }
    }

    /// Componentwise difference.
    pub fn sub(self, rhs: Self) -> (r: Self)
        requires
            i32::MIN <= self.x - rhs.x <= i32::MAX,
            i32::MIN <= self.y - rhs.y <= i32::MAX,
        ensures
            r@.x == self@.x - rhs@.x,
            r@.y == self@.y - rhs@.y,
    {
        Self { x: self.x - rhs.x, y: self.y - rhs.y }
    }

    /// Componentwise negation.
    pub fn neg(self) -> (r: Self)
        requires
            self.x != i32::MIN,
            self.y != i32::MIN,
        ensures
            r@.x == -self@.x,
            r@.y == -self@.y,
    {
        Self { x: -self.x, y: -self.y }
    }

    /// Componentwise absolute value.
    pub fn abs(self) -> (r: Self)
        requires
            self.x != i32::MIN,
            self.y != i32::MIN,
        ensures
            r@.x == abs_int(self@.x),
            r@.y == abs_int(self@.y),
    {
        Self {
            x: if self.x < 0 { -self.x } else { self.x },
            y: if self.y < 0 { -self.y } else { self.y },
        }
    }

    /// Scalar product of the two vectors.
    pub fn dot(self, rhs: Self) -> (r: i32)
        requires
            i32::MIN <= self.x * rhs.x <= i32::MAX,
            i32::MIN <= self.y * rhs.y <= i32::MAX,
            i32::MIN <= self.x * rhs.x + self.y * rhs.y <= i32::MAX,
        ensures
            r == self@.x * rhs@.x + self@.y * rhs@.y,
    {
        self.x * rhs.x + self.y * rhs.y
    }

    /// Squared Euclidean length, the dot product of the vector with itself.
    pub fn len_sq(self) -> (r: i32)
        requires
            self.x * self.x + self.y * self.y <= i32::MAX,
        ensures
            r == self@.x * self@.x + self@.y * self@.y,
    {
        proof {
            assert(self.x * self.x >= 0) by (nonlinear_arith);
            assert(self.y * self.y >= 0) by (nonlinear_arith);
        }
        self.x * self.x + self.y * self.y
    }

    /// Componentwise scalar multiply.
    pub fn mul(self, rhs: i32) -> (r: Self)
        requires
            i32::MIN <= self.x * rhs <= i32::MAX,
            i32::MIN <= self.y * rhs <= i32::MAX,
        ensures
            r@.x == self@.x * rhs,
            r@.y == self@.y * rhs,
    {
        Self { x: self.x * rhs, y: self.y * rhs }
    }

    /// Componentwise scalar division, truncating toward zero as the `/`
    /// of the machine does; only division by zero and the one overflowing
    /// quotient are excluded.
    pub fn div(self, rhs: i32) -> (r: Self)
        requires
            rhs != 0,
            !(self.x == i32::MIN && rhs == -1),
            !(self.y == i32::MIN && rhs == -1),
        ensures
            r@.x == trunc_div_s(self@.x, rhs as int),
            r@.y == trunc_div_s(self@.y, rhs as int),
    {
        Self { x: div_i32(self.x, rhs), y: div_i32(self.y, rhs) }
    }
}

/// Truncating division of one component, handling either divisor sign by
/// dividing by the divisor's magnitude in the wider kind.
fn div_i32(a: i32, b: i32) -> (r: i32)
    requires
        b != 0,
        !(a == i32::MIN && b == -1),
    ensures
        r == trunc_div_s(a as int, b as int),
{
    if b > 0 {
        a / b
    } else {
        let na = a as i64;
        let nb = -(b as i64);
        let q = na / nb;
        proof {
            if na >= 0 {
                lemma_div_nonincreasing(na as int, nb as int);
                lemma_div_pos_is_pos(na as int, nb as int);
            } else {
                lemma_div_nonincreasing(-na as int, nb as int);
                lemma_div_pos_is_pos(-na as int, nb as int);
            }
            if a == i32::MIN {
                lemma_fundamental_div_mod(-(na as int), nb as int);
                lemma_mod_division_less_than_divisor(-(na as int), nb as int);
                assert(-(q as int) <= 0x4000_0000) by (nonlinear_arith)
                    requires
                        q as int == -((-(na as int)) / (nb as int)),
                        na == -0x8000_0000,
                        nb >= 2,
                        (-(na as int)) / (nb as int) >= 0,
                        nb as int * ((-(na as int)) / (nb as int)) + ((-(na as int)) % (
                        nb as int)) == -(na as int),
                        0 <= (-(na as int)) % (nb as int) < nb,
                ;
            }
        }
        (-q) as i32
    }
}

impl Vec2<u32> {
    /// Widens both unsigned components into the signed kind, keeping the
    /// value.
    pub fn to_sign(self) -> (r: Vec2<i32>)
        requires
            self.x <= i32::MAX,
            self.y <= i32::MAX,
        ensures
            r@ == self@,
    {
        Vec2 { x: self.x as i32, y: self.y as i32 }
    }
}

impl Vec2<i64> {
    /// Componentwise sum.
    pub fn add(self, rhs: Self) -> (r: Self)
        requires
            i64::MIN <= self.x + rhs.x <= i64::MAX,
            i64::MIN <= self.y + rhs.y <= i64::MAX,
        ensures
            r@.x == self@.x + rhs@.x,
            r@.y == self@.y + rhs@.y,
    {
        Self { x: self.x + rhs.x, y: self.y + rhs.y }
    }

    /// Componentwise difference.
    pub fn sub(self, rhs: Self) -> (r: Self)
        requires
            i64::MIN <= self.x - rhs.x <= i64::MAX,
            i64::MIN <= self.y - rhs.y <= i64::MAX,
        ensures
            r@.x == self@.x - rhs@.x,
            r@.y == self@.y - rhs@.y,
    {
        Self { x: self.x - rhs.x, y: self.y - rhs.y }
    }

    /// Componentwise negation.
    pub fn neg(self) -> (r: Self)
        requires
            self.x != i64::MIN,
            self.y != i64::MIN,
        ensures
            r@.x == -self@.x,
            r@.y == -self@.y,
    {
        Self { x: -self.x, y: -self.y }
    }

    /// Componentwise absolute value.
    pub fn abs(self) -> (r: Self)
        requires
            self.x != i64::MIN,
            self.y != i64::MIN,
        ensures
            r@.x == abs_int(self@.x),
            r@.y == abs_int(self@.y),
    {
        Self {
            x: if self.x < 0 { -self.x } else { self.x },
            y: if self.y < 0 { -self.y } else { self.y },
        }
    }
}

/// Quotient truncated toward zero, the division of the machine.
pub open spec fn trunc_div_s(a: int, b: int) -> int {
    if (a >= 0) == (b >= 0) {
        abs_int(a) / abs_int(b)
    } else {
        -(abs_int(a) / abs_int(b))
    }
}

/// A pixel vector taken into subunits: both components scaled by `UNIT`.
pub open spec fn from_pixel_s(p: SVec2) -> SVec2 {
    SVec2 { x: p.x * 256, y: p.y * 256 }
}

/// A subunit vector rounded to the nearest pixel, half-ties away from
/// zero, and clipped into the pixel coordinate range.
pub open spec fn to_pixel_s(v: SVec2) -> SVec2 {
    SVec2 {
        x: clamp_pix(rnd_div_s(v.x, 256)),
        y: clamp_pix(rnd_div_s(v.y, 256)),
    }
}

impl Vec2<i32> {
    /// Takes a pixel vector into subunits.
    pub fn to_fixed(self) -> (r: Vec2<i64>)
        ensures
            r@ == from_pixel_s(self@),
    {
        Vec2 { x: (self.x as i64) * 256, y: (self.y as i64) * 256 }
    }
}

impl Vec2<i64> {
    /// Rounds a subunit vector to the nearest pixel, half-ties away from
    /// zero, clipping into the pixel coordinate range.
    pub fn to_int(self) -> (r: Vec2<i32>)
        requires
            -0x3000_0000_0000_0000 < self.x < 0x3000_0000_0000_0000,
            -0x3000_0000_0000_0000 < self.y < 0x3000_0000_0000_0000,
        ensures
            r@ == to_pixel_s(self@),
    {
        Vec2 { x: clamp_to_i32(rnd_div(self.x, 256)), y: clamp_to_i32(rnd_div(self.y, 256)) }
    }
}

/// Larger of two values under the order of `MaxMin`.
pub open spec fn smax<T: MaxMin>(a: T, b: T) -> T {
    if a.le(b) {
        b
    } else {
        a
    }
}

/// Smaller of two values under the order of `MaxMin`.
pub open spec fn smin<T: MaxMin>(a: T, b: T) -> T {
    if a.le(b) {
        a
    } else {
        b
    }
}

/// Componentwise maximum at the specification level.
pub open spec fn vmax<T: MaxMin>(a: Vec2<T>, b: Vec2<T>) -> Vec2<T> {
    Vec2 { x: smax(a.x, b.x), y: smax(a.y, b.y) }
}

/// Componentwise minimum at the specification level.
pub open spec fn vmin<T: MaxMin>(a: Vec2<T>, b: Vec2<T>) -> Vec2<T> {
    Vec2 { x: smin(a.x, b.x), y: smin(a.y, b.y) }
}

impl<T: MaxMin> Vec2<T> {
    /// Componentwise maximum.
    pub fn max(self, rhs: Self) -> (r: Self)
        ensures
            r == vmax(self, rhs),
    {
        Self { x: self.x._max(rhs.x), y: self.y._max(rhs.y) }
    }

    /// Componentwise minimum.
    pub fn min(self, rhs: Self) -> (r: Self)
        ensures
            r == vmin(self, rhs),
    {
        Self { x: self.x._min(rhs.x), y: self.y._min(rhs.y) }
    }

    /// Componentwise clamp of both components between `lo` and `hi`.
    pub fn clamp(self, lo: Self, hi: Self) -> (r: Self)
        requires
            lo.x.le(hi.x),
            lo.y.le(hi.y),
        ensures
            r.x == (if !lo.x.le(self.x) { lo.x } else if !self.x.le(hi.x) { hi.x } else { self.x }),
            r.y == (if !lo.y.le(self.y) { lo.y } else if !self.y.le(hi.y) { hi.y } else { self.y }),
    {
        Self { x: self.x._clamp(lo.x, hi.x), y: self.y._clamp(lo.y, hi.y) }
    }
}

} // verus!

//! Fixed-point arithmetic in subunits of 1/256 of a pixel, and the integer
//! square root the distance functions are built on.

use vstd::prelude::*;
use vstd::arithmetic::div_mod::*;
use vstd::arithmetic::mul::*;

verus! {

/// Number of subunits per pixel.
pub const UNIT: i64 = 256;

/// Half a pixel in subunits; the containment threshold of the rasterizer.
pub const HALF: i64 = 128;

/// Largest magnitude a signed distance may take; combinator arithmetic
/// saturates here so that no sequence of combinators can overflow.
pub const DMAX: i64 = 0x100_0000_0000_0000;

/// Absolute value of an unbounded integer.
pub open spec fn abs_int(v: int) -> int {
    if v < 0 {
        -v
    } else {
        v
    }
}

/// Clamp of an unbounded integer between two bounds.
pub open spec fn clamp_int(v: int, lo: int, hi: int) -> int {
    if v < lo {
        lo
    } else if v > hi {
        hi
    } else {
        v
    }
}

/// Quotient of `a` by a positive `b`, rounded toward minus infinity; this
/// is exactly the `/` of specifications.
pub open spec fn floor_div_s(a: int, b: int) -> int {
    a / b
}

/// Quotient of `a` by a positive `b`, rounded toward plus infinity.
pub open spec fn ceil_div_s(a: int, b: int) -> int {
    (a + b - 1) / b
}

/// Quotient of `a` by a nonzero `b`, rounded to the nearest integer, with
/// half-ties resolved away from zero.
pub open spec fn rnd_div_s(a: int, b: int) -> int {
    let aa = if b > 0 {
        a
    } else {
        -a
    };
    let bb = abs_int(b);
    if aa >= 0 {
        (2 * aa + bb) / (2 * bb)
    } else {
        -((2 * (-aa) + bb) / (2 * bb))
    }
}

/// A coordinate clipped into the pixel coordinate range.
pub open spec fn clamp_pix(v: int) -> int {
    if v < i32::MIN {
        i32::MIN as int
    } else if v > i32::MAX {
        i32::MAX as int
    } else {
        v
    }
}

/// A coordinate clipped into the pixel coordinate range.
pub fn clamp_to_i32(v: i64) -> (r: i32)
    ensures
        r as int == clamp_pix(v as int),
{
    if v < -0x8000_0000i64 {
        i32::MIN
    } else if v > 0x7fff_ffffi64 {
        i32::MAX
    } else {
        v as i32
    }
}

/// Clamp of an `i64` between two bounds.
pub fn clamp_i64(v: i64, lo: i64, hi: i64) -> (r: i64)
    requires
        lo <= hi,
    ensures
        r == clamp_int(v as int, lo as int, hi as int),
{
    if v < lo {
        lo
    } else if v > hi {
        hi
    } else {
        v
    }
}

/// Quotient rounded toward minus infinity.
pub fn floor_div(a: i64, b: i64) -> (r: i64)
    requires
        b > 0,
        i64::MIN < a,
    ensures
        r == floor_div_s(a as int, b as int),
{
    let q = a / b;
    let m = a % b;
    proof {
        if a < 0 {
            lemma_fundamental_div_mod(-a as int, b as int);
            if m < 0 {
                assert(a == (q - 1) * b + (m + b)) by (nonlinear_arith)
                    requires
                        -a as int == b * ((-a as int) / b as int) + (-a as int) % (b as int),
                        q == -((-a as int) / b as int),
                        m == -((-a as int) % (b as int)),
                ;
                lemma_fundamental_div_mod_converse(a as int, b as int, q - 1, m + b);
            } else {
                assert(a == q * b + 0) by (nonlinear_arith)
                    requires
                        -a as int == b * ((-a as int) / b as int) + (-a as int) % (b as int),
                        q == -((-a as int) / b as int),
                        (-a as int) % (b as int) == 0,
                ;
                lemma_fundamental_div_mod_converse(a as int, b as int, q as int, 0);
            }
        }
    }
    if m < 0 {
        q - 1
    } else {
        q
    }
}

/// Quotient rounded toward plus infinity.
pub fn ceil_div(a: i64, b: i64) -> (r: i64)
    requires
        b > 0,
        i64::MIN < a,
        a + b <= i64::MAX,
    ensures
        r == ceil_div_s(a as int, b as int),
{
    floor_div(a + b - 1, b)
}

/// Quotient rounded to the nearest integer, half-ties away from zero; the
/// divisor may have either sign.
pub fn rnd_div(a: i64, b: i64) -> (r: i64)
    requires
        b != 0,
        -0x3000_0000_0000_0000 < a < 0x3000_0000_0000_0000,
        -0x1000_0000_0000_0000 <= b <= 0x1000_0000_0000_0000,
    ensures
        r == rnd_div_s(a as int, b as int),
{
    let (an, bn) = if b < 0 { (-a, -b) } else { (a, b) };
    if an >= 0 {
        floor_div(2 * an + bn, 2 * bn)
    } else {
        -floor_div(2 * (-an) + bn, 2 * bn)
    }
}

/// Largest integer whose square does not exceed `n`.
pub open spec fn isqrt_s(n: nat) -> nat
    decreases n,
{
    if n == 0 {
        0
    } else {
        let p = isqrt_s((n - 1) as nat);
        if (p + 1) * (p + 1) <= n {
            p + 1
        } else {
            p
        }
    }
}

/// The defining inequalities of the integer square root.
pub proof fn lemma_isqrt_bounds(n: nat)
    ensures
        isqrt_s(n) * isqrt_s(n) <= n,
        n < (isqrt_s(n) + 1) * (isqrt_s(n) + 1),
    decreases n,
{
    if n == 0 {
        assert(isqrt_s(n) == 0);
        assert(isqrt_s(n) * isqrt_s(n) <= n && n < (isqrt_s(n) + 1) * (isqrt_s(n) + 1))
            by (nonlinear_arith)
            requires
                n == 0,
                isqrt_s(n) == 0,
        ;
    } else {
        lemma_isqrt_bounds((n - 1) as nat);
        let p = isqrt_s((n - 1) as nat);
        if (p + 1) * (p + 1) <= n {
            assert(isqrt_s(n) == p + 1);
            assert(isqrt_s(n) * isqrt_s(n) <= n && n < (isqrt_s(n) + 1) * (isqrt_s(n) + 1))
                by (nonlinear_arith)
                requires
                    isqrt_s(n) == p + 1,
                    (p + 1) * (p + 1) <= n,
                    (n - 1) < (p + 1) * (p + 1),
            ;
        } else {
            assert(isqrt_s(n) == p);
            assert(isqrt_s(n) * isqrt_s(n) <= n && n < (isqrt_s(n) + 1) * (isqrt_s(n) + 1))
                by (nonlinear_arith)
                requires
                    isqrt_s(n) == p,
                    p * p <= n - 1,
                    !((p + 1) * (p + 1) <= n),
            ;
        }
    }
}

/// The integer square root is the only natural number satisfying its
/// defining inequalities.
pub proof fn lemma_isqrt_unique(n: nat, r: nat)
    requires
        r * r <= n,
        n < (r + 1) * (r + 1),
    ensures
        isqrt_s(n) == r,
{
    lemma_isqrt_bounds(n);
    assert(isqrt_s(n) == r) by (nonlinear_arith)
        requires
            r * r <= n,
            n < (r + 1) * (r + 1),
            isqrt_s(n) * isqrt_s(n) <= n,
            n < (isqrt_s(n) + 1) * (isqrt_s(n) + 1),
    ;
}

/// Square root of `n`, rounded to the nearest integer; an exact half
/// cannot arise, since no integer sits at a half between two squares.
pub open spec fn sqrt_rnd_s(n: nat) -> nat {
    let r = isqrt_s(n);
    if n > r * r + r {
        r + 1
    } else {
        r
    }
}

/// The rounded square root is at least any `m` whose square is at most `n`.
pub proof fn lemma_sqrt_rnd_ge(n: nat, m: nat)
    requires
        m * m <= n,
    ensures
        sqrt_rnd_s(n) >= m,
{
    lemma_isqrt_bounds(n);
    assert(isqrt_s(n) >= m) by (nonlinear_arith)
        requires
            m * m <= n,
            n < (isqrt_s(n) + 1) * (isqrt_s(n) + 1),
    ;
}

/// The rounded square root is at most any `m` whose square is at least `n`.
pub proof fn lemma_sqrt_rnd_le(n: nat, m: nat)
    requires
        n <= m * m,
    ensures
        sqrt_rnd_s(n) <= m,
{
    lemma_isqrt_bounds(n);
    let r = isqrt_s(n);
    assert(r <= m) by (nonlinear_arith)
        requires
            n <= m * m,
            r * r <= n,
    ;
    if r == m {
        assert(!(n > r * r + r));
    }
}

/// Largest integer whose square does not exceed `n`.
pub fn isqrt(n: u128) -> (r: u64)
    requires
        n < 0x4000_0000_0000_0000_0000_0000_0000_0000,
    ensures
        r == isqrt_s(n as nat),
{
    let mut lo: u128 = 0;
    let mut hi: u128 = 0x8000_0000_0000_0000;
    proof {
        assert((0x8000_0000_0000_0000 as int) * (0x8000_0000_0000_0000 as int)
            == 0x4000_0000_0000_0000_0000_0000_0000_0000) by (nonlinear_arith);
    }
    while hi - lo > 1
        invariant
            lo < hi <= 0x8000_0000_0000_0000,
            lo * lo <= n,
            n < hi * hi,
        decreases hi - lo,
    {
        let mid = lo + (hi - lo) / 2;
        proof {
            assert(mid * mid <= 0x4000_0000_0000_0000_0000_0000_0000_0000) by (nonlinear_arith)
                requires
                    0 <= mid <= 0x8000_0000_0000_0000,
            ;
        }
        if mid * mid <= n {
            lo = mid;
        } else {
            hi = mid;
        }
    }
    proof {
        lemma_isqrt_unique(n as nat, lo as nat);
    }
    lo as u64
}

/// Square root of `n`, rounded to the nearest integer; an exact half
/// cannot arise, since no integer sits at a half between two squares.
pub fn sqrt_rnd(n: u128) -> (r: u64)
    requires
        n < 0x4000_0000_0000_0000_0000_0000_0000_0000,
    ensures
        r == sqrt_rnd_s(n as nat),
{
    let s = isqrt(n);
    proof {
        lemma_isqrt_bounds(n as nat);
        assert(s < 0x8000_0000_0000_0000) by (nonlinear_arith)
            requires
                s * s <= n,
                n < 0x4000_0000_0000_0000_0000_0000_0000_0000,
        ;
    }
    let s128 = s as u128;
    if n - s128 * s128 > s128 {
        s + 1
    } else {
        s
    }
}

/// Where the rounded quotient stands: within half a (positive) divisor of
/// the exact quotient, on either side at a half-tie.
pub proof fn lemma_rnd_div_range(a: int, b: int)
    requires
        b > 0,
    ensures
        2 * b * rnd_div_s(a, b) - b <= 2 * a <= 2 * b * rnd_div_s(a, b) + b,
{
    if a >= 0 {
        lemma_fundamental_div_mod(2 * a + b, 2 * b);
        lemma_mod_division_less_than_divisor(2 * a + b, 2 * b);
        assert(0 <= (2 * a + b) % (2 * b));
        assert(2 * b * rnd_div_s(a, b) - b <= 2 * a <= 2 * b * rnd_div_s(a, b) + b)
            by (nonlinear_arith)
            requires
                b > 0,
                a >= 0,
                2 * a + b == 2 * b * ((2 * a + b) / (2 * b)) + (2 * a + b) % (2 * b),
                0 <= (2 * a + b) % (2 * b) < 2 * b,
                rnd_div_s(a, b) == (2 * a + b) / (2 * b),
        ;
    } else {
        lemma_fundamental_div_mod(2 * (-a) + b, 2 * b);
        lemma_mod_division_less_than_divisor(2 * (-a) + b, 2 * b);
        assert(0 <= (2 * (-a) + b) % (2 * b));
        assert(2 * b * rnd_div_s(a, b) - b <= 2 * a <= 2 * b * rnd_div_s(a, b) + b)
            by (nonlinear_arith)
            requires
                b > 0,
                a < 0,
                2 * (-a) + b == 2 * b * ((2 * (-a) + b) / (2 * b)) + (2 * (-a) + b) % (2 * b),
                0 <= (2 * (-a) + b) % (2 * b) < 2 * b,
                rnd_div_s(a, b) == -((2 * (-a) + b) / (2 * b)),
        ;
    }
}

/// Rounding an exact multiple of the divisor divides exactly.
pub proof fn lemma_rnd_div_exact(k: int, b: int)
    requires
        b > 0,
    ensures
        rnd_div_s(k * b, b) == k,
{
    lemma_rnd_div_range(k * b, b);
    assert(rnd_div_s(k * b, b) == k) by (nonlinear_arith)
        requires
            b > 0,
            2 * b * rnd_div_s(k * b, b) - b <= 2 * (k * b) <= 2 * b * rnd_div_s(k * b, b) + b,
    ;
}

/// Where a translated-then-rounded coordinate lands: translating a pixel
/// coordinate `p` by `-t` subunits and rounding back to pixels stays
/// between `p` less the ceiling of `t` and `p` less the floor of `t`.
pub proof fn lemma_rnd_div_translate(p: int, t: int, u: int)
    requires
        u > 0,
    ensures
        p - ceil_div_s(t, u) <= rnd_div_s(p * u - t, u) <= p - floor_div_s(t, u),
{
    let w = t / u;
    let s = t % u;
    lemma_fundamental_div_mod(t, u);
    lemma_mod_division_less_than_divisor(t, u);
    assert(0 <= s < u);
    let r = rnd_div_s(p * u - t, u);
    lemma_rnd_div_range(p * u - t, u);
    assert(r <= p - w) by (nonlinear_arith)
        requires
            u > 0,
            t == u * w + s,
            0 <= s < u,
            2 * u * r - u <= 2 * (p * u - t) <= 2 * u * r + u,
    ;
    if s == 0 {
        assert((p - w) * u == p * u - t) by (nonlinear_arith)
            requires
                t == u * w + s,
                s == 0,
        ;
        lemma_rnd_div_exact(p - w, u);
    } else {
        assert(r >= p - w - 1) by (nonlinear_arith)
            requires
                u > 0,
                t == u * w + s,
                0 < s < u,
                2 * u * r - u <= 2 * (p * u - t) <= 2 * u * r + u,
        ;
    }
    lemma_hoist_over_denominator(s + u - 1, w, u as nat);
    assert((s + u - 1) + w * u == t + u - 1) by (nonlinear_arith)
        requires
            t == u * w + s,
    ;
    if s == 0 {
        lemma_basic_div(u - 1, u);
    } else {
        lemma_fundamental_div_mod_converse(s + u - 1, u, 1, s - 1);
    }
    assert(ceil_div_s(t, u) == w + (if s == 0 { 0int } else { 1int }));
}

/// Dividing with rounding toward minus or plus infinity commutes with
/// adding whole multiples of the divisor.
pub proof fn lemma_div_translate(m: int, t: int, u: int)
    requires
        u > 0,
    ensures
        floor_div_s(m * u + t, u) == m + floor_div_s(t, u),
        ceil_div_s(m * u + t, u) == m + ceil_div_s(t, u),
{
    lemma_hoist_over_denominator(t, m, u as nat);
    lemma_hoist_over_denominator(t + u - 1, m, u as nat);
    assert(m * u + t + u - 1 == (t + u - 1) + m * u);
}

/// Rounded division by a positive divisor never grows the magnitude.
pub proof fn lemma_rnd_div_abs(a: int, b: int)
    requires
        b > 0,
    ensures
        abs_int(rnd_div_s(a, b)) <= abs_int(a),
{
    lemma_rnd_div_range(a, b);
    assert(abs_int(rnd_div_s(a, b)) <= abs_int(a)) by (nonlinear_arith)
        requires
            b > 0,
            2 * b * rnd_div_s(a, b) - b <= 2 * a <= 2 * b * rnd_div_s(a, b) + b,
    ;
}

/// Rounded division by any nonzero divisor never grows the magnitude.
pub proof fn lemma_rnd_div_abs_any(a: int, b: int)
    requires
        b != 0,
    ensures
        abs_int(rnd_div_s(a, b)) <= abs_int(a),
{
    if b > 0 {
        lemma_rnd_div_abs(a, b);
    } else {
        assert(rnd_div_s(a, b) == rnd_div_s(-a, -b));
        lemma_rnd_div_abs(-a, -b);
    }
}

} // verus!

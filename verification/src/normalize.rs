//! Vector normalization in fixed-point arithmetic.
//!
//! `Vec2::normalized` maps the zero vector to itself and any other vector to
//! a vector of the same direction whose squared magnitude lies within
//! `UNIT_TOL` of `SCALE * SCALE` — the fixed-point form of a unit vector.
//! The algorithm first scales the vector by powers of two into a band where
//! its largest component is between `SCALE` and `2 * SCALE`, then divides
//! each component by the integer square root of the squared magnitude.

use vstd::prelude::*;
use crate::fixed::{div_trunc, is_isqrt, isqrt, SCALE};
use crate::geometry::Vec2;

verus! {

/// Tolerance on the squared magnitude of a normalized vector: the model's
/// version of floating-point tolerance on unit length.
pub const UNIT_TOL: i64 = 16 * SCALE;

/// A unit vector of the model: squared magnitude within `UNIT_TOL`
/// of `SCALE * SCALE`.
pub open spec fn is_unit(v: Vec2) -> bool {
    &&& SCALE * SCALE - UNIT_TOL <= v.norm_sq()
    &&& v.norm_sq() <= SCALE * SCALE + UNIT_TOL
}

/// The magnitude of an integer.
pub open spec fn iabs(a: int) -> int {
    if a >= 0 {
        a
    } else {
        -a
    }
}

/// The magnitude of the largest component.
pub open spec fn max_abs(v: Vec2) -> int {
    if iabs(v.x as int) >= iabs(v.y as int) {
        iabs(v.x as int)
    } else {
        iabs(v.y as int)
    }
}

/// Componentwise truncating halving.
pub open spec fn half_vec(v: Vec2) -> Vec2 {
    Vec2 { x: div_trunc(v.x as int, 2) as i64, y: div_trunc(v.y as int, 2) as i64 }
}

/// Halve the vector until its largest component magnitude is below
/// `2 * SCALE`.
pub open spec fn band_down(v: Vec2) -> Vec2
    decreases max_abs(v),
{
    if max_abs(v) < 2 * SCALE {
        v
    } else {
        band_down(half_vec(v))
    }
}

/// Double the vector until its largest component magnitude reaches `SCALE`;
/// the zero vector stays put.
pub open spec fn band_up(v: Vec2) -> Vec2
    decreases 2 * SCALE - max_abs(v),
{
    if v == Vec2::spec_zero() {
        v
    } else if max_abs(v) >= SCALE {
        v
    } else {
        band_up(Vec2 { x: (2 * v.x) as i64, y: (2 * v.y) as i64 })
    }
}

/// The power-of-two rescaling of `v` into the band where its largest
/// component magnitude lies in `[SCALE, 2 * SCALE)`.
pub open spec fn band(v: Vec2) -> Vec2 {
    band_up(band_down(v))
}

/// The integer square root, as a recursive specification.
pub open spec fn isqrt_spec(n: int) -> int
    decreases n,
{
    if n <= 0 {
        0
    } else {
        let r = isqrt_spec(n - 1);
        if (r + 1) * (r + 1) <= n {
            r + 1
        } else {
            r
        }
    }
}

/// What `Vec2::normalized` returns: the banded vector divided by the
/// integer square root of its squared magnitude, or zero for zero.
pub open spec fn normalized_spec(v: Vec2) -> Vec2 {
    if v == Vec2::spec_zero() {
        Vec2::spec_zero()
    } else {
        let b = band(v);
        let m = isqrt_spec(b.norm_sq());
        Vec2 {
            x: div_trunc(b.x * SCALE, m) as i64,
            y: div_trunc(b.y * SCALE, m) as i64,
        }
    }
}

pub proof fn lemma_isqrt_spec_correct(n: int)
    requires
        n >= 0,
    ensures
        isqrt_spec(n) >= 0,
        is_isqrt(isqrt_spec(n), n),
    decreases n,
{
    if n > 0 {
        lemma_isqrt_spec_correct(n - 1);
        let r = isqrt_spec(n - 1);
        if (r + 1) * (r + 1) <= n {
            assert(n - 1 < (r + 1) * (r + 1));
            assert(n < (r + 2) * (r + 2)) by (nonlinear_arith)
                requires
                    r >= 0,
                    n <= (r + 1) * (r + 1),
            ;
        }
    }
}

/// The integer square root is unique: any two nonnegative roots of the same
/// value agree.
pub proof fn lemma_isqrt_unique(a: int, b: int, n: int)
    requires
        a >= 0,
        b >= 0,
        is_isqrt(a, n),
        is_isqrt(b, n),
    ensures
        a == b,
{
    assert(a <= b) by (nonlinear_arith)
        requires
            a >= 0,
            b >= 0,
            a * a <= n,
            n < (b + 1) * (b + 1),
    ;
    assert(b <= a) by (nonlinear_arith)
        requires
            a >= 0,
            b >= 0,
            b * b <= n,
            n < (a + 1) * (a + 1),
    ;
}

/// Halving lands `band_down` strictly below `2 * SCALE` without losing the
/// vector: a nonzero vector stays nonzero.
pub proof fn lemma_band_down_bounds(v: Vec2)
    ensures
        max_abs(band_down(v)) < 2 * SCALE,
        max_abs(v) >= 1 ==> max_abs(band_down(v)) >= 1,
    decreases max_abs(v),
{
    if max_abs(v) >= 2 * SCALE {
        lemma_band_down_bounds(half_vec(v));
    }
}

/// Doubling lands `band_up` in the band `[SCALE, 2 * SCALE)` whenever the
/// input is nonzero and already below `2 * SCALE`.
pub proof fn lemma_band_up_bounds(v: Vec2)
    requires
        1 <= max_abs(v) < 2 * SCALE,
    ensures
        SCALE <= max_abs(band_up(v)) < 2 * SCALE,
    decreases 2 * SCALE - max_abs(v),
{
    if max_abs(v) < SCALE {
        lemma_band_up_bounds(Vec2 { x: (2 * v.x) as i64, y: (2 * v.y) as i64 });
    }
}

/// A nonzero vector's band has its largest component magnitude in
/// `[SCALE, 2 * SCALE)`.
pub proof fn lemma_band_bounds(v: Vec2)
    requires
        v != Vec2::spec_zero(),
    ensures
        SCALE <= max_abs(band(v)) < 2 * SCALE,
{
    lemma_band_down_bounds(v);
    lemma_band_up_bounds(band_down(v));
}

/// Truncating division of a product by a positive divisor acts on the
/// magnitude: the magnitude of the quotient is the euclidean quotient of
/// the magnitudes, and it is bounded by the dividend's magnitude.
proof fn lemma_div_trunc_mag(c: int, k: int, s: int)
    requires
        s >= 1,
        k >= 0,
    ensures
        iabs(div_trunc(c * k, s)) == (iabs(c) * k) / s,
        0 <= (iabs(c) * k) / s <= iabs(c) * k,
{
    let g = iabs(c) * k;
    assert(g >= 0) by (nonlinear_arith)
        requires
            iabs(c) >= 0,
            k >= 0,
            g == iabs(c) * k,
    ;
    vstd::arithmetic::div_mod::lemma_div_pos_is_pos(g, s);
    vstd::arithmetic::div_mod::lemma_div_is_ordered_by_denominator(g, 1, s);
    vstd::arithmetic::div_mod::lemma_div_basics(g);
    if c >= 0 {
        assert(c * k == g);
    } else {
        assert(c * k == -g) by (nonlinear_arith)
            requires
                c < 0,
                k >= 0,
                g == iabs(c) * k,
                iabs(c) == -c,
        ;
        assert(div_trunc(c * k, s) == -(g / s));
    }
}

/// The unit-direction invariant: normalizing any nonzero vector yields a
/// fixed-point unit vector — its squared magnitude is within `UNIT_TOL`
/// of `SCALE * SCALE`.
pub proof fn lemma_normalized_unit(v: Vec2)
    requires
        v != Vec2::spec_zero(),
    ensures
        is_unit(normalized_spec(v)),
        iabs(normalized_spec(v).x as int) <= 2 * SCALE,
        iabs(normalized_spec(v).y as int) <= 2 * SCALE,
{
    let s_unit = SCALE as int;
    lemma_band_bounds(v);
    let b = band(v);
    let ax = iabs(b.x as int);
    let ay = iabs(b.y as int);
    let n = b.norm_sq();
    assert(ax * ax == b.x * b.x && ay * ay == b.y * b.y) by (nonlinear_arith)
        requires
            (ax == b.x || ax == -(b.x as int)),
            (ay == b.y || ay == -(b.y as int)),
    ;
    assert(n == ax * ax + ay * ay);
    // The band bound turns into bounds on the squared magnitude.
    assert(n >= s_unit * s_unit && n <= (s_unit * s_unit) * 8) by (nonlinear_arith)
        requires
            n == ax * ax + ay * ay,
            0 <= ax < 2 * s_unit,
            0 <= ay < 2 * s_unit,
            (ax >= s_unit || ay >= s_unit),
    ;
    lemma_isqrt_spec_correct(n);
    let s = isqrt_spec(n);
    assert(s >= s_unit) by (nonlinear_arith)
        requires
            s >= 0,
            n < (s + 1) * (s + 1),
            n >= s_unit * s_unit,
            s_unit >= 1,
    ;
    assert(s <= 3 * s_unit) by (nonlinear_arith)
        requires
            s >= 0,
            s * s <= n,
            n <= (s_unit * s_unit) * 8,
            s_unit >= 1,
    ;
    // Truncating signed division acts on magnitudes; the quotients are
    // small enough that the cast back to i64 in the specification is exact.
    lemma_div_trunc_mag(b.x as int, s_unit, s);
    lemma_div_trunc_mag(b.y as int, s_unit, s);
    let gx = ax * s_unit;
    let gy = ay * s_unit;
    assert(gx <= (2 * s_unit) * s_unit && gy <= (2 * s_unit) * s_unit) by (nonlinear_arith)
        requires
            gx == ax * s_unit,
            gy == ay * s_unit,
            0 <= ax < 2 * s_unit,
            0 <= ay < 2 * s_unit,
            s_unit >= 1,
    ;
    let qx = div_trunc(b.x * s_unit, s);
    let qy = div_trunc(b.y * s_unit, s);
    let r = normalized_spec(v);
    assert(r.x == qx && r.y == qy);
    let px = iabs(qx);
    let py = iabs(qy);
    assert(px == gx / s && py == gy / s);
    vstd::arithmetic::div_mod::lemma_remainder_upper(gx, s);
    vstd::arithmetic::div_mod::lemma_remainder_lower(gx, s);
    vstd::arithmetic::div_mod::lemma_remainder_upper(gy, s);
    vstd::arithmetic::div_mod::lemma_remainder_lower(gy, s);
    assert(px * s <= gx && gx < px * s + s);
    assert(py * s <= gy && gy < py * s + s);
    // px and py are at most 2 * SCALE.
    assert(px <= 2 * s_unit && py <= 2 * s_unit) by (nonlinear_arith)
        requires
            px * s <= gx,
            py * s <= gy,
            gx == ax * s_unit,
            gy == ay * s_unit,
            0 <= ax < 2 * s_unit,
            0 <= ay < 2 * s_unit,
            s >= s_unit >= 1,
            px >= 0,
            py >= 0,
    ;
    let e = px * px + py * py;
    assert(r.norm_sq() == e) by (nonlinear_arith)
        requires
            e == px * px + py * py,
            (px == r.x || px == -(r.x as int)),
            (py == r.y || py == -(r.y as int)),
            r.norm_sq() == r.x * r.x + r.y * r.y,
    ;
    // Upper bound: e cannot exceed the unit square by more than 2 * SCALE.
    assert((px * px) * (s * s) <= (ax * ax) * (s_unit * s_unit) && (py * py) * (s * s) <= (
    ay * ay) * (s_unit * s_unit)) by (nonlinear_arith)
        requires
            0 <= px,
            0 <= py,
            px * s <= ax * s_unit,
            py * s <= ay * s_unit,
            0 <= ax,
            0 <= ay,
            s >= 1,
            s_unit >= 1,
    ;
    assert((ax * ax) * (s_unit * s_unit) + (ay * ay) * (s_unit * s_unit) == n * (s_unit
        * s_unit)) by (nonlinear_arith)
        requires
            n == ax * ax + ay * ay,
    ;
    assert(e <= s_unit * s_unit + 2 * s_unit) by (nonlinear_arith)
        requires
            e == px * px + py * py,
            (px * px) * (s * s) + (py * py) * (s * s) <= n * (s_unit * s_unit),
            n < (s + 1) * (s + 1),
            s >= s_unit >= 1,
            e >= 0,
    ;
    // Lower bound: each truncation costs less than one divisor.
    assert((ax * ax) * (s_unit * s_unit) < ((px + 1) * (px + 1)) * (s * s) && (ay * ay) * (
    s_unit * s_unit) < ((py + 1) * (py + 1)) * (s * s)) by (nonlinear_arith)
        requires
            0 <= px,
            0 <= py,
            ax * s_unit < px * s + s,
            ay * s_unit < py * s + s,
            0 <= ax,
            0 <= ay,
            s >= 1,
            s_unit >= 1,
    ;
    assert(e >= s_unit * s_unit - 2 * (px + py) - 2) by (nonlinear_arith)
        requires
            e == px * px + py * py,
            n * (s_unit * s_unit) < ((px + 1) * (px + 1)) * (s * s) + ((py + 1) * (py + 1)) * (
            s * s),
            s * s <= n,
            s >= 1,
            s_unit >= 1,
    ;
    assert(SCALE * SCALE - UNIT_TOL <= e <= SCALE * SCALE + UNIT_TOL);
}

/// Largest component magnitude, executable.
fn max_component(a: i64, b: i64) -> (r: i64)
    requires
        -0x4000_0000_0000_0000 < a < 0x4000_0000_0000_0000,
        -0x4000_0000_0000_0000 < b < 0x4000_0000_0000_0000,
    ensures
        r == max_abs(Vec2 { x: a, y: b }),
{
    let ax: i64 = if a >= 0 { a } else { -a };
    let ay: i64 = if b >= 0 { b } else { -b };
    if ax >= ay { ax } else { ay }
}

/// Bound on the components `Vec2::normalized` accepts; every vector the
/// engine feeds it (directions and center differences) lies far inside.
pub const NORM_INPUT_LIMIT: i64 = 0x4_0000_0000_0000;

impl Vec2 {
    /// Normalize to fixed-point unit length, mapping zero to zero.
    pub fn normalized(&self) -> (r: Vec2)
        requires
            -NORM_INPUT_LIMIT <= self.x <= NORM_INPUT_LIMIT,
            -NORM_INPUT_LIMIT <= self.y <= NORM_INPUT_LIMIT,
        ensures
            r == normalized_spec(*self),
    {
        if self.x == 0 && self.y == 0 {
            return Vec2 { x: 0, y: 0 };
        }
        let mut a: i64 = self.x;
        let mut b: i64 = self.y;
        while max_component(a, b) >= 2 * SCALE
            invariant
                -NORM_INPUT_LIMIT <= a <= NORM_INPUT_LIMIT,
                -NORM_INPUT_LIMIT <= b <= NORM_INPUT_LIMIT,
                max_abs(Vec2 { x: a, y: b }) >= 1,
                band_down(Vec2 { x: a, y: b }) == band_down(*self),
            decreases max_abs(Vec2 { x: a, y: b }),
        {
            let a2: i64 = crate::fixed::div_by(a, 2);
            let b2: i64 = crate::fixed::div_by(b, 2);
            proof {
                let cur = Vec2 { x: a, y: b };
                let nxt = Vec2 { x: a2, y: b2 };
                assert(nxt == half_vec(cur));
                assert(band_down(cur) == band_down(nxt));
            }
            a = a2;
            b = b2;
        }
        proof {
            let cur = Vec2 { x: a, y: b };
            assert(band_down(cur) == cur);
        }
        while max_component(a, b) < SCALE
            invariant
                max_abs(Vec2 { x: a, y: b }) >= 1,
                max_abs(Vec2 { x: a, y: b }) < 2 * SCALE,
                band_up(Vec2 { x: a, y: b }) == band(*self),
            decreases 2 * SCALE - max_abs(Vec2 { x: a, y: b }),
        {
            let a2: i64 = 2 * a;
            let b2: i64 = 2 * b;
            proof {
                let cur = Vec2 { x: a, y: b };
                let nxt = Vec2 { x: a2, y: b2 };
                assert(cur != Vec2::spec_zero());
                assert(band_up(cur) == band_up(nxt));
            }
            a = a2;
            b = b2;
        }
        proof {
            let cur = Vec2 { x: a, y: b };
            assert(cur != Vec2::spec_zero());
            assert(band_up(cur) == cur);
            assert(cur == band(*self));
        }
        proof {
            assert(a * a >= 0 && a * a < 0x4_0000_0000 && b * b >= 0 && b * b
                < 0x4_0000_0000) by (nonlinear_arith)
                requires
                    -2 * SCALE < a < 2 * SCALE,
                    -2 * SCALE < b < 2 * SCALE,
                    SCALE == 65536,
            ;
        }
        let n: u64 = ((a * a) as u64) + ((b * b) as u64);
        let m: u64 = isqrt(n);
        proof {
            let cur = Vec2 { x: a, y: b };
            assert(n == cur.norm_sq());
            assert(n >= 1) by (nonlinear_arith)
                requires
                    n == a * a + b * b,
                    max_abs(Vec2 { x: a, y: b }) >= 1,
                    (a >= 1 || -a >= 1 || b >= 1 || -b >= 1),
            ;
            assert(m >= 1) by (nonlinear_arith)
                requires
                    (n as int) < ((m as int) + 1) * ((m as int) + 1),
                    n >= 1,
            ;
            lemma_isqrt_spec_correct(n as int);
            lemma_isqrt_unique(m as int, isqrt_spec(n as int), n as int);
        }
        let rx: i64 = crate::fixed::div_by(a * SCALE, m as i64);
        let ry: i64 = crate::fixed::div_by(b * SCALE, m as i64);
        proof {
            assert(-0x4000_0000_0000_0000 <= a * SCALE <= 0x4000_0000_0000_0000
                && -0x4000_0000_0000_0000 <= b * SCALE <= 0x4000_0000_0000_0000)
                by (nonlinear_arith)
                requires
                    -2 * SCALE < a < 2 * SCALE,
                    -2 * SCALE < b < 2 * SCALE,
                    SCALE == 65536,
            ;
        }
        Vec2 { x: rx, y: ry }
    }
}

} // verus!

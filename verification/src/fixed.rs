//! Fixed-point scalar arithmetic: truncating division, saturation at the
//! world-coordinate limit, and an integer square root.

use vstd::prelude::*;

verus! {

/// Fixed-point unit: the integer that stands for the real value 1.0.
pub const SCALE: i64 = 65536;

/// Positions are kept inside [-POS_LIMIT, POS_LIMIT]; integration saturates
/// at this bound so that a body drifting outside a degenerate boundary can
/// never overflow.
pub const POS_LIMIT: i64 = 0x100_0000_0000;

/// Every rectangle coordinate the resolvers accept lies in
/// [-COORD_LIMIT, COORD_LIMIT], so that edge differences cannot overflow.
pub const COORD_LIMIT: i64 = 0x1000_0000_0000;

/// Truncating (round-toward-zero) division, the meaning of the executable
/// `/` on signed fixed-point values.  Meaningful for `b > 0`.
pub open spec fn div_trunc(a: int, b: int) -> int {
    if a >= 0 {
        a / b
    } else {
        -((-a) / b)
    }
}

/// Clamp a mathematical position value into the world-coordinate range.
pub open spec fn saturate(a: int) -> int {
    if a > POS_LIMIT as int {
        POS_LIMIT as int
    } else if a < -POS_LIMIT as int {
        -POS_LIMIT as int
    } else {
        a
    }
}

/// Truncating division of a bounded signed value by a positive divisor.
pub fn div_by(a: i64, b: i64) -> (r: i64)
    requires
        -0x4000_0000_0000_0000 <= a <= 0x4000_0000_0000_0000,
        0 < b,
    ensures
        r == div_trunc(a as int, b as int),
{
    if a >= 0 {
        let q: u64 = (a as u64) / (b as u64);
        q as i64
    } else {
        let q: u64 = ((-a) as u64) / (b as u64);
        proof {
            assert((-a) as u64 / (b as u64) <= (-a) as u64) by (nonlinear_arith)
                requires b as u64 >= 1;
        }
        -(q as i64)
    }
}

/// Clamp a position value into [-POS_LIMIT, POS_LIMIT].
pub fn clamp_pos(a: i64) -> (r: i64)
    ensures
        r == saturate(a as int),
{
    if a > POS_LIMIT {
        POS_LIMIT
    } else if a < -POS_LIMIT {
        -POS_LIMIT
    } else {
        a
    }
}

/// `r` is the integer square root of `n`.
pub open spec fn is_isqrt(r: int, n: int) -> bool {
    &&& r * r <= n
    &&& n < (r + 1) * (r + 1)
}

/// Integer square root by bisection.
pub fn isqrt(n: u64) -> (r: u64)
    requires
        n < 0x4000_0000_0000_0000,
    ensures
        is_isqrt(r as int, n as int),
        r < 0x8000_0000,
{
    let mut lo: u64 = 0;
    let mut hi: u64 = 0x8000_0000;
    proof {
        assert((0x8000_0000u64 as int) * (0x8000_0000u64 as int) > n as int);
    }
    while lo + 1 < hi
        invariant
            lo < hi <= 0x8000_0000,
            lo * lo <= n,
            n < hi * hi,
        decreases hi - lo,
    {
        let mid: u64 = lo + (hi - lo) / 2;
        proof {
            assert(mid < hi);
            assert(mid * mid < 0x8000_0000 * 0x8000_0000) by (nonlinear_arith)
                requires mid < 0x8000_0000u64;
        }
        if mid * mid <= n {
            lo = mid;
        } else {
            hi = mid;
        }
    }
    lo
}

} // verus!

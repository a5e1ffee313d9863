//! The gravity accumulator.
//!
//! Each attractor pulls a ball with an inverse-square acceleration of
//! magnitude `gravity / |d|^2` directed along `d`, the vector from the ball
//! to the attractor. In raw fixed-point units the contribution along one
//! axis is `gravity * SCALE^2 * delta / (|d|^2 * |d|)`, evaluated with
//! truncating integer division and an exact integer square root, and
//! saturated to the `i64` range. A ball exactly at an attractor's centre
//! receives no pull from it: the mathematical value is undefined there, and
//! zero is this library's explicit choice for that degenerate input.

use vstd::prelude::*;
use crate::fixed::{abs_int, add_sat_spec, from_mag, sat64};
use crate::vec2::{lemma_abs_square, norm_sq_spec, Vec2};

verus! {

/// `r` is the integer square root of `n`.
pub open spec fn is_isqrt(n: int, r: int) -> bool {
    0 <= r && r * r <= n && n < (r + 1) * (r + 1)
}

/// The integer square root: the unique `r` with `r^2 <= n < (r+1)^2`.
pub open spec fn isqrt_spec(n: int) -> int {
    choose|r: int| is_isqrt(n, r)
}

/// No two integers are square roots of the same number.
pub proof fn lemma_isqrt_unique(n: int, r1: int, r2: int) by (nonlinear_arith)
    requires
        0 <= r1 && r1 * r1 <= n && n < (r1 + 1) * (r1 + 1),
        0 <= r2 && r2 * r2 <= n && n < (r2 + 1) * (r2 + 1),
    ensures
        r1 == r2,
{
}

/// Every nonnegative number has an integer square root.
pub proof fn lemma_isqrt_exists(n: nat)
    ensures
        exists|r: int| is_isqrt(n as int, r),
    decreases n,
{
    if n == 0 {
        assert(is_isqrt(0, 0));
    } else {
        lemma_isqrt_exists((n - 1) as nat);
        let m1: int = n - 1;
        let r = choose|r: int| is_isqrt(m1, r);
        if (r + 1) * (r + 1) <= n {
            assert(is_isqrt(n as int, r + 1)) by (nonlinear_arith)
                requires
                    0 <= r,
                    r * r <= n - 1,
                    n - 1 < (r + 1) * (r + 1),
                    (r + 1) * (r + 1) <= n,
            ;
        } else {
            assert(is_isqrt(n as int, r));
        }
    }
}

/// A witness that satisfies `is_isqrt` pins `isqrt_spec` down.
pub proof fn lemma_isqrt_agree(n: int, r: int)
    requires
        is_isqrt(n, r),
    ensures
        isqrt_spec(n) == r,
{
    assert(exists|q: int| is_isqrt(n, q));
    let q = choose|q: int| is_isqrt(n, q);
    lemma_isqrt_unique(n, q, r);
}

/// The integer square root, by binary search on `[0, 2^64]`.
pub fn isqrt(n: u128) -> (r: u128)
    ensures
        is_isqrt(n as int, r as int),
{
    let mut lo: u128 = 0;
    let mut hi: u128 = 0x10000000000000000;
    proof {
        assert((0x10000000000000000int) * 0x10000000000000000 > n) by (nonlinear_arith)
            requires
                n <= 0xffffffffffffffffffffffffffffffff,
        ;
    }
    while lo + 1 < hi
        invariant
            lo < hi <= 0x10000000000000000,
            (lo as int) * (lo as int) <= n as int,
            (n as int) < (hi as int) * (hi as int),
        decreases hi - lo,
    {
        let mid: u128 = lo + (hi - lo) / 2;
        proof {
            assert(mid * mid <= 0xfffffffffffffffe0000000000000001) by (nonlinear_arith)
                requires
                    mid <= 0xffffffffffffffff,
            ;
        }
        if mid * mid <= n {
            lo = mid;
        } else {
            hi = mid;
        }
    }
    lo
}

/// The raw (unsaturated) gravitational acceleration along one axis, from a
/// single attractor displaced by `delta` along this axis, at squared
/// distance `n2`: `gravity * SCALE^2 / n2`, scaled by `delta / sqrt(n2)`.
/// The literal 4294967296 is `SCALE^2`. Zero at the singular point `n2 == 0`.
pub open spec fn grav_axis_raw(g: int, delta: int, n2: int) -> int {
    if n2 == 0 {
        0
    } else {
        let q1 = (g * 4294967296) / n2;
        let mag = (q1 * abs_int(delta)) / isqrt_spec(n2);
        if delta >= 0 {
            mag
        } else {
            -mag
        }
    }
}

/// The acceleration along one axis, saturated to the `i64` range.
pub open spec fn grav_axis_spec(g: int, delta: int, n2: int) -> int {
    sat64(grav_axis_raw(g, delta, n2))
}

/// The x component of one attractor's pull on a ball at `p`.
pub open spec fn grav_x_spec(g: int, p: Vec2, a: Vec2) -> int {
    grav_axis_spec(g, a.x - p.x, norm_sq_spec(a.x - p.x, a.y - p.y))
}

/// The y component of one attractor's pull on a ball at `p`.
pub open spec fn grav_y_spec(g: int, p: Vec2, a: Vec2) -> int {
    grav_axis_spec(g, a.y - p.y, norm_sq_spec(a.x - p.x, a.y - p.y))
}

/// One attractor's pull on a ball at `p`.
pub fn accel_from(g: i64, p: Vec2, a: Vec2) -> (r: Vec2)
    requires
        0 <= g,
    ensures
        r.x == grav_x_spec(g as int, p, a),
        r.y == grav_y_spec(g as int, p, a),
{
    let dx: i128 = a.x as i128 - p.x as i128;
    let dy: i128 = a.y as i128 - p.y as i128;
    let adx: u128 = if dx < 0 {
        (-dx) as u128
    } else {
        dx as u128
    };
    let ady: u128 = if dy < 0 {
        (-dy) as u128
    } else {
        dy as u128
    };
    proof {
        lemma_abs_square(a.x - p.x, adx as int);
        lemma_abs_square(a.y - p.y, ady as int);
        assert(adx * adx <= 0xfffffffffffffffe0000000000000001) by (nonlinear_arith)
            requires
                adx <= 0xffffffffffffffff,
        ;
        assert(ady * ady <= 0xfffffffffffffffe0000000000000001) by (nonlinear_arith)
            requires
                ady <= 0xffffffffffffffff,
        ;
    }
    let sx: u128 = adx * adx;
    let sy: u128 = ady * ady;
    let ghost n2r: int = norm_sq_spec(a.x - p.x, a.y - p.y);
    if sx > u128::MAX - sy {
        // The true squared distance exceeds u128 range; the pull truncates
        // to zero there, since gravity * SCALE^2 is far smaller.
        proof {
            lemma_isqrt_exists(n2r as nat);
            let m = choose|r: int| is_isqrt(n2r, r);
            assert((g as int) * 4294967296 < n2r);
            assert((g as int) * 4294967296 / n2r == 0) by (nonlinear_arith)
                requires
                    0 <= (g as int) * 4294967296 < n2r,
            ;
            assert(m >= 1) by (nonlinear_arith)
                requires
                    n2r >= 1,
                    0 <= m,
                    n2r < (m + 1) * (m + 1),
            ;
            assert(0int / m == 0) by (nonlinear_arith)
                requires
                    m >= 1,
            ;
            lemma_isqrt_agree(n2r, m);
        }
        Vec2 { x: 0, y: 0 }
    } else {
        let n2: u128 = sx + sy;
        if n2 == 0 {
            Vec2 { x: 0, y: 0 }
        } else {
            let m: u128 = isqrt(n2);
            proof {
                lemma_isqrt_agree(n2r, m as int);
                assert(m >= 1) by (nonlinear_arith)
                    requires
                        n2r >= 1,
                        0 <= m,
                        n2r < (m as int + 1) * (m as int + 1),
                ;
            }
            let gs: u128 = (g as u128) * 4294967296;
            let q1: u128 = gs / n2;
            proof {
                assert(q1 * n2 <= gs) by (nonlinear_arith)
                    requires
                        q1 == gs / n2,
                        n2 >= 1,
                ;
                assert(q1 * adx <= gs && q1 * ady <= gs) by (nonlinear_arith)
                    requires
                        q1 * n2 <= gs,
                        adx * adx <= n2,
                        ady * ady <= n2,
                        0 <= q1,
                        0 <= adx,
                        0 <= ady,
                ;
            }
            let mx: u128 = (q1 * adx) / m;
            let my: u128 = (q1 * ady) / m;
            let rx: i64 = from_mag(dx < 0, mx);
            let ry: i64 = from_mag(dy < 0, my);
            Vec2 { x: rx, y: ry }
        }
    }
}

/// For a ball at distance `d` from a single attractor along a cardinal
/// direction, the acceleration has magnitude exactly
/// `gravity * SCALE^2 / d^2` in raw units — `gravity / dist^2` in real
/// units — points exactly toward the attractor on that axis (positive
/// toward `+d`, negative toward `-d`), and vanishes on the perpendicular
/// axis.
pub proof fn lemma_gravity_cardinal(g: int, d: int)
    requires
        0 <= g,
        1 <= d,
        (g * 4294967296) / (d * d) <= i64::MAX as int,
    ensures
        grav_axis_spec(g, d, d * d) == (g * 4294967296) / (d * d),
        grav_axis_spec(g, -d, d * d) == -((g * 4294967296) / (d * d)),
        grav_axis_spec(g, 0, d * d) == 0,
{
    assert(d * d >= 1 && d * d <= d * d && d * d < (d + 1) * (d + 1)) by (nonlinear_arith)
        requires
            1 <= d,
    ;
    lemma_isqrt_agree(d * d, d);
    let q1 = (g * 4294967296) / (d * d);
    assert(q1 >= 0) by (nonlinear_arith)
        requires
            q1 == (g * 4294967296) / (d * d),
            g * 4294967296 >= 0,
            d * d >= 1,
    ;
    assert((q1 * d) / d == q1) by (nonlinear_arith)
        requires
            1 <= d,
            0 <= q1,
    ;
    assert((q1 * 0) / d == 0) by (nonlinear_arith)
        requires
            1 <= d,
    ;
}

/// The combined pull of the two attractors on a ball at `p`: the
/// componentwise saturating sum of the two contributions.
pub fn accel_net(g: i64, p: Vec2, a1: Vec2, a2: Vec2) -> (r: Vec2)
    requires
        0 <= g,
    ensures
        r.x == add_sat_spec(grav_x_spec(g as int, p, a1), grav_x_spec(g as int, p, a2)),
        r.y == add_sat_spec(grav_y_spec(g as int, p, a1), grav_y_spec(g as int, p, a2)),
{
    let c1 = accel_from(g, p, a1);
    let c2 = accel_from(g, p, a2);
    c1.plus(c2)
}

} // verus!

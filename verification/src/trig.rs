//! Fixed-point angles and trigonometry.
//!
//! An angle is a fixed-point scalar in `[0, TAU_FP)`, where `TAU_FP` is the
//! fixed-point full turn (2*pi), rounded to a multiple of four so that the
//! half turn and the quarter turn are exact. The sine is the classical
//! rational approximation `16x(pi - x) / (5 pi^2 - 4x(pi - x))` on the first
//! half turn, mirrored on the second; the cosine is the sine shifted by a
//! quarter turn. Every value is pinned down exactly by the spec functions
//! below, and the half-turn antipodal symmetry holds exactly, not merely
//! within a tolerance.

use vstd::prelude::*;
use crate::fixed::SCALE;

verus! {

/// A full turn (2*pi) in fixed point, rounded to a multiple of 4.
pub const TAU_FP: i64 = 411776;

/// A half turn (pi) in fixed point.
pub const HALF_TURN: i64 = 205888;

/// A quarter turn (pi/2) in fixed point.
pub const QUARTER_TURN: i64 = 102944;

/// The sine on the first half turn: `16u * SCALE / (5 * HALF_TURN^2 - 4u)`
/// with `u = x * (HALF_TURN - x)`, all in raw fixed-point units. The
/// literals are `HALF_TURN` (205888), `16 * SCALE` (1048576) and
/// `5 * HALF_TURN^2` (211949342720): the solver reasons far better over
/// literals than over products of named constants.
pub open spec fn sin_core_spec(x: int) -> int {
    let u = x * (205888 - x);
    (1048576 * u) / (211949342720 - 4 * u)
}

/// The sine of an angle in `[0, TAU_FP)`: the first half turn is the core
/// approximation, the second its mirror image.
pub open spec fn sin_spec(a: int) -> int {
    if a < HALF_TURN as int {
        sin_core_spec(a)
    } else {
        -sin_core_spec(a - HALF_TURN as int)
    }
}

/// Addition of two angles in `[0, TAU_FP)`, reduced into `[0, TAU_FP)`.
pub open spec fn add_mod_spec(a: int, b: int) -> int {
    if a + b < TAU_FP as int {
        a + b
    } else {
        a + b - TAU_FP as int
    }
}

/// The cosine of an angle in `[0, TAU_FP)`: the sine a quarter turn ahead.
pub open spec fn cos_spec(a: int) -> int {
    sin_spec(add_mod_spec(a, QUARTER_TURN as int))
}

/// Addition of two angles, reduced into `[0, TAU_FP)`.
pub fn add_mod(a: i64, b: i64) -> (r: i64)
    requires
        0 <= a < TAU_FP,
        0 <= b < TAU_FP,
    ensures
        r == add_mod_spec(a as int, b as int),
        0 <= r < TAU_FP,
{
    let s: i64 = a + b;
    if s < TAU_FP {
        s
    } else {
        s - TAU_FP
    }
}

fn sin_core(x: i64) -> (r: i64)
    requires
        0 <= x <= HALF_TURN,
    ensures
        r == sin_core_spec(x as int),
        0 <= r <= SCALE,
{
    let xu: u64 = x as u64;
    let d: u64 = (HALF_TURN as u64) - xu;
    proof {
        assert(4 * (xu * d) <= 42389868544) by (nonlinear_arith)
            requires
                xu <= 205888,
                d == 205888 - xu,
        ;
    }
    let u: u64 = xu * d;
    let num: u64 = 1048576 * u;
    let den: u64 = 211949342720 - 4 * u;
    proof {
        assert((u as int) == (x as int) * (205888 - x as int)) by (nonlinear_arith)
            requires
                u == xu * d,
                xu == x as int,
                d == 205888 - x as int,
        ;
    }
    let r0: u64 = num / den;
    proof {
        assert(num / den <= 65536) by (nonlinear_arith)
            requires
                den >= 1,
                num <= 65536 * den,
        ;
    }
    r0 as i64
}

/// The fixed-point sine of an angle in `[0, TAU_FP)`.
pub fn sin_fp(a: i64) -> (r: i64)
    requires
        0 <= a < TAU_FP,
    ensures
        r == sin_spec(a as int),
        -SCALE <= r <= SCALE,
{
    if a < HALF_TURN {
        sin_core(a)
    } else {
        -sin_core(a - HALF_TURN)
    }
}

/// The fixed-point cosine of an angle in `[0, TAU_FP)`.
pub fn cos_fp(a: i64) -> (r: i64)
    requires
        0 <= a < TAU_FP,
    ensures
        r == cos_spec(a as int),
        -SCALE <= r <= SCALE,
{
    sin_fp(add_mod(a, QUARTER_TURN))
}

/// The sine of every angle stays within one unit in magnitude.
pub proof fn lemma_sin_bounded(a: int)
    requires
        0 <= a < TAU_FP as int,
    ensures
        -(SCALE as int) <= sin_spec(a) <= SCALE as int,
{
    let x = if a < 205888 { a } else { a - 205888 };
    let u = x * (205888 - x);
    assert(0 <= 4 * u <= 42389868544) by (nonlinear_arith)
        requires
            0 <= x <= 205888,
            u == x * (205888 - x),
    ;
    assert(0 <= sin_core_spec(x) <= 65536) by (nonlinear_arith)
        requires
            0 <= 4 * u <= 42389868544,
            sin_core_spec(x) == (1048576 * u) / (211949342720 - 4 * u),
    ;
}

/// Moving half a turn flips the sign of the sine, exactly.
pub proof fn lemma_sin_antipodal(a: int)
    requires
        0 <= a < TAU_FP as int,
    ensures
        sin_spec(add_mod_spec(a, HALF_TURN as int)) == -sin_spec(a),
{
}

/// Moving half a turn flips the sign of the cosine, exactly.
pub proof fn lemma_cos_antipodal(a: int)
    requires
        0 <= a < TAU_FP as int,
    ensures
        cos_spec(add_mod_spec(a, HALF_TURN as int)) == -cos_spec(a),
{
    let q = QUARTER_TURN as int;
    let h = HALF_TURN as int;
    assert(add_mod_spec(add_mod_spec(a, h), q) == add_mod_spec(add_mod_spec(a, q), h));
    lemma_sin_antipodal(add_mod_spec(a, q));
}

} // verus!

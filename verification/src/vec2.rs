//! 2D vectors of fixed-point scalars.

use vstd::prelude::*;
use crate::fixed::{add_sat, add_sat_spec, mul_fp, mul_fp_spec, sub_sat, sub_sat_spec};

verus! {

/// A two-dimensional vector; both components are fixed-point scalars.
#[derive(Clone, Copy, PartialEq, Eq, Structural, Debug)]
pub struct Vec2 {
    pub x: i64,
    pub y: i64,
}

impl Vec2 {
    /// The zero vector.
    pub fn zero() -> (r: Vec2)
        ensures
            r.x == 0 && r.y == 0,
    {
        Vec2 { x: 0, y: 0 }
    }

    /// Componentwise saturating sum.
    pub fn plus(self, o: Vec2) -> (r: Vec2)
        ensures
            r.x == add_sat_spec(self.x as int, o.x as int),
            r.y == add_sat_spec(self.y as int, o.y as int),
    {
        Vec2 { x: add_sat(self.x, o.x), y: add_sat(self.y, o.y) }
    }

    /// Componentwise saturating difference.
    pub fn minus(self, o: Vec2) -> (r: Vec2)
        ensures
            r.x == sub_sat_spec(self.x as int, o.x as int),
            r.y == sub_sat_spec(self.y as int, o.y as int),
    {
        Vec2 { x: sub_sat(self.x, o.x), y: sub_sat(self.y, o.y) }
    }

    /// Both components multiplied by a fixed-point scalar.
    pub fn scaled(self, s: i64) -> (r: Vec2)
        ensures
            r.x == mul_fp_spec(self.x as int, s as int),
            r.y == mul_fp_spec(self.y as int, s as int),
    {
        Vec2 { x: mul_fp(self.x, s), y: mul_fp(self.y, s) }
    }

    /// Whether `self` lies within distance `t` of `o`. The comparison is
    /// exact: squared distances are compared as wide integers, which never
    /// truncate.
    pub fn within(self, o: Vec2, t: i64) -> (r: bool)
        requires
            0 <= t,
        ensures
            r == (norm_sq_spec(o.x - self.x, o.y - self.y) <= (t as int) * (t as int)),
    {
        let dx: i128 = o.x as i128 - self.x as i128;
        let dy: i128 = o.y as i128 - self.y as i128;
        let adx: u128 = if dx < 0 {
            (-dx) as u128
        } else {
            dx as u128
        };
        let ady: u128 = if dy < 0 {
            (-dy) as u128
        } else {
            dy as u128
        };
        proof {
            lemma_abs_square(o.x - self.x, adx as int);
            lemma_abs_square(o.y - self.y, ady as int);
            assert(adx * adx <= 0xfffffffffffffffe0000000000000001) by (nonlinear_arith)
                requires
                    adx <= 0xffffffffffffffff,
            ;
            assert(ady * ady <= 0xfffffffffffffffe0000000000000001) by (nonlinear_arith)
                requires
                    ady <= 0xffffffffffffffff,
            ;
            assert((t as u128) * (t as u128) < 0x80000000000000000000000000000000)
                by (nonlinear_arith)
                requires
                    (t as u128) <= 0x8000000000000000,
            ;
        }
        let sx: u128 = adx * adx;
        let sy: u128 = ady * ady;
        let tt: u128 = (t as u128) * (t as u128);
        if sx > u128::MAX - sy {
            false
        } else {
            sx + sy <= tt
        }
    }
}

/// The squared euclidean length of the vector `(dx, dy)`, in raw units.
pub open spec fn norm_sq_spec(dx: int, dy: int) -> int {
    dx * dx + dy * dy
}

/// The square of a number equals the square of its absolute value.
pub proof fn lemma_abs_square(d: int, a: int) by (nonlinear_arith)
    requires
        d >= 0 ==> a == d,
        d < 0 ==> a == -d,
    ensures
        a * a == d * d,
        0 <= a,
{
}

} // verus!

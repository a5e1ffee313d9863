//! Signed 64-bit fixed-point scalars.
//!
//! A scalar stores `round(value * SCALE)` in an `i64`. Multiplication
//! truncates toward zero (as hardware division does) and saturates to the
//! `i64` range, so every operation is total: no input can make the library
//! panic or overflow.

use vstd::prelude::*;

verus! {

/// One unit, i.e. the fixed-point representation of 1.
pub const SCALE: i64 = 65536;

/// Saturation of a mathematical integer to the `i64` range.
pub open spec fn sat64(x: int) -> int {
    if x > i64::MAX as int {
        i64::MAX as int
    } else if x < i64::MIN as int {
        i64::MIN as int
    } else {
        x
    }
}

/// Absolute value of a mathematical integer.
pub open spec fn abs_int(x: int) -> int {
    if x >= 0 {
        x
    } else {
        -x
    }
}

/// Division truncating toward zero (the rounding of hardware division),
/// for a positive divisor.
pub open spec fn tdiv(a: int, b: int) -> int {
    if a >= 0 {
        a / b
    } else {
        -((-a) / b)
    }
}

/// The fixed-point product: `a * b / SCALE` truncated toward zero and
/// saturated to the `i64` range.
pub open spec fn mul_fp_spec(a: int, b: int) -> int {
    sat64(tdiv(a * b, SCALE as int))
}

/// The saturating sum.
pub open spec fn add_sat_spec(a: int, b: int) -> int {
    sat64(a + b)
}

/// The saturating difference.
pub open spec fn sub_sat_spec(a: int, b: int) -> int {
    sat64(a - b)
}

/// The magnitude of an `i64`, total also for `i64::MIN`.
pub fn abs_u128(a: i64) -> (r: u128)
    ensures
        r == abs_int(a as int),
{
    let w: i128 = a as i128;
    if w < 0 {
        (-w) as u128
    } else {
        w as u128
    }
}

/// Rebuilds a signed value from a sign and a magnitude, saturating to `i64`.
pub fn from_mag(neg: bool, m: u128) -> (r: i64)
    ensures
        r as int == sat64(if neg { -(m as int) } else { m as int }),
{
    if neg {
        if m >= 9223372036854775808u128 {
            i64::MIN
        } else {
            -(m as i64)
        }
    } else {
        if m > 9223372036854775807u128 {
            i64::MAX
        } else {
            m as i64
        }
    }
}

/// Fixed-point multiplication.
pub fn mul_fp(a: i64, b: i64) -> (r: i64)
    ensures
        r as int == mul_fp_spec(a as int, b as int),
{
    let neg: bool = (a < 0) != (b < 0);
    let pa: u128 = abs_u128(a);
    let pb: u128 = abs_u128(b);
    assert(pa * pb < 0x100000000000000000000000000000000) by (nonlinear_arith)
        requires
            pa <= 0x8000000000000000,
            pb <= 0x8000000000000000,
    ;
    let prod: u128 = pa * pb;
    proof {
        assert((a as int) * (b as int) == if neg {
            -((pa as int) * (pb as int))
        } else {
            (pa as int) * (pb as int)
        }) by (nonlinear_arith)
            requires
                (a as int) >= 0 ==> pa == a as int,
                (a as int) < 0 ==> pa == -(a as int),
                (b as int) >= 0 ==> pb == b as int,
                (b as int) < 0 ==> pb == -(b as int),
                neg == ((a as int) < 0 != ((b as int) < 0)),
        ;
    }
    let q: u128 = prod / (SCALE as u128);
    from_mag(neg, q)
}

/// Saturating addition.
pub fn add_sat(a: i64, b: i64) -> (r: i64)
    ensures
        r as int == add_sat_spec(a as int, b as int),
{
    let s: i128 = a as i128 + b as i128;
    if s > i64::MAX as i128 {
        i64::MAX
    } else if s < i64::MIN as i128 {
        i64::MIN
    } else {
        s as i64
    }
}

/// Multiplying a bounded value by a fixed-point factor of magnitude at most
/// one unit never saturates, never grows the value, and is odd in the factor.
pub proof fn lemma_mul_fp_unit(r: int, c: int)
    requires
        0 <= r <= i64::MAX as int,
        abs_int(c) <= SCALE as int,
    ensures
        mul_fp_spec(r, -c) == -mul_fp_spec(r, c),
        abs_int(mul_fp_spec(r, c)) <= r,
{
    let x = r * c;
    assert(r * (-c) == -x && -(r * 65536) <= x <= r * 65536) by (nonlinear_arith)
        requires
            x == r * c,
            0 <= r,
            -65536 <= c <= 65536,
    ;
    assert(tdiv(-x, 65536) == -tdiv(x, 65536));
    assert(abs_int(tdiv(x, 65536)) <= r) by {
        if x >= 0 {
            assert(x / 65536 <= r) by (nonlinear_arith)
                requires
                    0 <= x <= r * 65536,
                    0 <= r,
            ;
        } else {
            assert((-x) / 65536 <= r) by (nonlinear_arith)
                requires
                    0 <= -x <= r * 65536,
                    0 <= r,
            ;
        }
    }
}

/// Saturating subtraction.
pub fn sub_sat(a: i64, b: i64) -> (r: i64)
    ensures
        r as int == sub_sat_spec(a as int, b as int),
{
    let s: i128 = a as i128 - b as i128;
    if s > i64::MAX as i128 {
        i64::MAX
    } else if s < i64::MIN as i128 {
        i64::MIN
    } else {
        s as i64
    }
}

} // verus!

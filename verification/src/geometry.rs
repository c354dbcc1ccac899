//! Plain geometric value types and the exact integer arithmetic helpers the
//! viewport math is built on.
//!
//! Every coordinate in this crate is a fixed-point integer in milli-units:
//! 1000 steps per screen pixel (screen space) or per grid unit (grid space).
//! A scaling factor is likewise carried in milli: 1000 stands for 1.0.

use vstd::prelude::*;

verus! {

/// A two-dimensional point or displacement, in milli-units.
#[derive(Debug, Clone, Copy, PartialEq, Eq, Structural)]
pub struct Vector2 {
    pub x: i64,
    pub y: i64,
}

/// A width and height, in milli-units.
#[derive(Debug, Clone, Copy, PartialEq, Eq, Structural)]
pub struct Size2 {
    pub width: i64,
    pub height: i64,
}

/// An axis-aligned rectangle in grid space, in milli-units.
#[derive(Debug, Clone, Copy, PartialEq, Eq, Structural)]
pub struct Region {
    pub x: i64,
    pub y: i64,
    pub width: i64,
    pub height: i64,
}

/// `v` forced into the interval `[lo, hi]`.
pub open spec fn clamp_spec(v: int, lo: int, hi: int) -> int {
    if v < lo {
        lo
    } else if v > hi {
        hi
    } else {
        v
    }
}

/// Addition that stops at the ends of the `i64` range instead of wrapping.
pub fn sat_add_i64(a: i64, b: i64) -> (r: i64)
    ensures
        r == clamp_spec(a + b, i64::MIN as int, i64::MAX as int),
{
    match a.checked_add(b) {
        Some(v) => v,
        None => {
            if b > 0 {
                i64::MAX
            } else {
                i64::MIN
            }
        },
    }
}

/// Subtraction that stops at the ends of the `i64` range instead of wrapping.
pub fn sat_sub_i64(a: i64, b: i64) -> (r: i64)
    ensures
        r == clamp_spec(a - b, i64::MIN as int, i64::MAX as int),
{
    match a.checked_sub(b) {
        Some(v) => v,
        None => {
            if b > 0 {
                i64::MIN
            } else {
                i64::MAX
            }
        },
    }
}

/// For a positive divisor, the flooring quotient stays between the dividend
/// and zero, so it never leaves the `i64` range.
pub proof fn lemma_div_floor_in_range(a: int, b: int)
    requires
        1 <= b,
    ensures
        a >= 0 ==> 0 <= a / b <= a,
        a < 0 ==> a <= a / b <= 0,
{
    vstd::arithmetic::div_mod::lemma_fundamental_div_mod(a, b);
    vstd::arithmetic::div_mod::lemma_mod_bound(a, b);
    let q = a / b;
    let r = a % b;
    if a >= 0 {
        assert(0 <= q <= a) by (nonlinear_arith)
            requires
                b * q + r == a,
                0 <= r < b,
                1 <= b,
                a >= 0,
        ;
    } else {
        assert(a <= q <= 0) by (nonlinear_arith)
            requires
                b * q + r == a,
                0 <= r < b,
                1 <= b,
                a < 0,
        ;
    }
}

/// Flooring division by a positive divisor: the unique `q` with
/// `q * b <= a < (q + 1) * b`, equal to `a / b` on mathematical integers.
pub fn div_floor_i64(a: i64, b: i64) -> (q: i64)
    requires
        0 < b,
    ensures
        q == a as int / b as int,
{
    proof {
        lemma_div_floor_in_range(a as int, b as int);
    }
    match a.checked_div_euclid(b) {
        Some(v) => v,
        None => 0,
    }
}

} // verus!

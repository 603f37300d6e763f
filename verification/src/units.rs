//! Fixed-point units shared by the whole simulation.
//!
//! Every coordinate, size and velocity is an `i64` holding a multiple of
//! `1 / SCALE` of a logical playfield unit; times and durations are multiples
//! of `1 / SCALE` of a second.  The playfield spans `[-SCALE, SCALE]` on both
//! axes, i.e. two logical units.

use vstd::prelude::*;

verus! {

/// Number of fixed-point steps in one logical unit (and in one second).
pub const SCALE: i64 = 10_000;

/// Largest frame duration a single tick accepts, in `1 / SCALE` seconds
/// (100 seconds); keeps one integration step inside `i64` range.
pub const MAX_TICK: u64 = 1_000_000;

/// Velocities saturate at this magnitude (100 000 playfield units per
/// second); keeps one integration step inside `i64` range.
pub const MAX_SPEED: i64 = 1_000_000_000_000;

/// Magnitude of an integer.
pub open spec fn abs_val(n: int) -> int {
    if n < 0 {
        -n
    } else {
        n
    }
}

/// Quotient rounded toward zero, the rounding that machine division
/// performs (Verus's own `/` on `int` is Euclidean).
pub open spec fn trunc_div(n: int, d: int) -> int {
    if n >= 0 {
        n / d
    } else {
        -((-n) / d)
    }
}

/// Product of two fixed-point quantities, scaled back down: the fixed-point
/// counterpart of multiplying a velocity by a duration in seconds.
pub open spec fn scale_mul(a: int, b: int) -> int {
    trunc_div(a * b, SCALE as int)
}

/// The smaller of two integers.
pub open spec fn min_val(a: int, b: int) -> int {
    if a < b {
        a
    } else {
        b
    }
}

/// The larger of two integers.
pub open spec fn max_val(a: int, b: int) -> int {
    if a > b {
        a
    } else {
        b
    }
}

/// `v` forced into `[lo, hi]`.
pub open spec fn clamp_val(v: int, lo: int, hi: int) -> int {
    if v < lo {
        lo
    } else if v > hi {
        hi
    } else {
        v
    }
}

/// Truncating division scales magnitudes down: `|n / d| == |n| / d`.
pub proof fn lemma_trunc_div_abs(n: int, d: int)
    requires
        d >= 1,
    ensures
        abs_val(trunc_div(n, d)) == abs_val(n) / d,
{
    if n >= 0 {
        vstd::arithmetic::div_mod::lemma_div_pos_is_pos(n, d);
    } else {
        vstd::arithmetic::div_mod::lemma_div_pos_is_pos(-n, d);
    }
}

/// A bound on the dividend gives a bound on the truncated quotient.
pub proof fn lemma_trunc_div_bound(n: int, d: int, m: int)
    requires
        d >= 1,
        abs_val(n) <= m,
    ensures
        abs_val(trunc_div(n, d)) <= m / d,
{
    lemma_trunc_div_abs(n, d);
    vstd::arithmetic::div_mod::lemma_div_is_ordered(abs_val(n), m, d);
}

/// Bounds on both factors give a bound on their product.
pub proof fn lemma_mul_abs_bound(a: int, b: int, ma: int, mb: int)
    requires
        0 <= ma,
        0 <= mb,
        abs_val(a) <= ma,
        abs_val(b) <= mb,
    ensures
        abs_val(a * b) <= ma * mb,
{
    assert(abs_val(a * b) <= ma * mb) by (nonlinear_arith)
        requires
            0 <= ma,
            0 <= mb,
            abs_val(a) <= ma,
            abs_val(b) <= mb,
    ;
}

/// Bounds on both factors give a bound on the scaled product.
pub proof fn lemma_scale_mul_bound(a: int, b: int, ma: int, mb: int)
    requires
        0 <= ma,
        0 <= mb,
        abs_val(a) <= ma,
        abs_val(b) <= mb,
    ensures
        abs_val(scale_mul(a, b)) <= ma * mb / (SCALE as int),
{
    assert(abs_val(a * b) <= ma * mb) by (nonlinear_arith)
        requires
            0 <= ma,
            0 <= mb,
            abs_val(a) <= ma,
            abs_val(b) <= mb,
    ;
    lemma_trunc_div_bound(a * b, SCALE as int, ma * mb);
}

/// Exact fixed-point product: `a * b / SCALE`, rounded toward zero.
pub fn mul_scale(a: i64, b: i64) -> (r: i64)
    requires
        i64::MIN <= a * b <= i64::MAX,
    ensures
        r == scale_mul(a as int, b as int),
{
    let p: i64 = a * b;
    p / SCALE
}

/// `v` forced into `[lo, hi]`.
pub fn clamp(v: i64, lo: i64, hi: i64) -> (r: i64)
    requires
        lo <= hi,
    ensures
        r == clamp_val(v as int, lo as int, hi as int),
{
    if v < lo {
        lo
    } else if v > hi {
        hi
    } else {
        v
    }
}

} // verus!

//! Fixed-point trigonometry.
//!
//! Angles are counted in millidegrees, sines and cosines in millionths.
//! The evaluation uses Bhaskara's rational approximation on each half
//! turn, which is exact at every multiple of a quarter turn and never
//! leaves `[-1, 1]`; that is all the layouts rely on.

use vstd::prelude::*;
use vstd::arithmetic::div_mod::{
    lemma_div_is_ordered,
    lemma_div_multiples_vanish,
    lemma_div_pos_is_pos,
};

verus! {

/// Bhaskara's approximation of the sine on `[0, 180000]` millidegrees,
/// in millionths: `4 u / (40.5e9 - u)` where `u = d (180000 - d)`.
pub open spec fn sin_half_spec(d: int) -> int {
    let u = d * (180000 - d);
    4_000_000 * u / (40_500_000_000 - u)
}

/// The sine of an angle in `[0, 360000]` millidegrees, in millionths.
pub open spec fn sin_spec(d: int) -> int {
    if d <= 180000 {
        sin_half_spec(d)
    } else {
        -sin_half_spec(d - 180000)
    }
}

/// The cosine of an angle in `[0, 360000]` millidegrees, in millionths.
pub open spec fn cos_spec(d: int) -> int {
    sin_spec((d + 90000) % 360000)
}

proof fn lemma_sin_half_bounds(d: int)
    requires
        0 <= d <= 180000,
    ensures
        0 <= sin_half_spec(d) <= 1_000_000,
        d == 0 ==> sin_half_spec(d) == 0,
        d == 180000 ==> sin_half_spec(d) == 0,
        d == 90000 ==> sin_half_spec(d) == 1_000_000,
{
    let u = d * (180000 - d);
    assert(0 <= d * (180000 - d) <= 8_100_000_000) by (nonlinear_arith)
        requires
            0 <= d <= 180000,
    ;
    let den = 40_500_000_000 - u;
    let num = 4_000_000 * u;
    lemma_div_pos_is_pos(num, den);
    assert(num <= 1_000_000 * den) by (nonlinear_arith)
        requires
            u <= 8_100_000_000,
            den == 40_500_000_000 - u,
            num == 4_000_000 * u,
    ;
    lemma_div_is_ordered(num, 1_000_000 * den, den);
    lemma_div_multiples_vanish(1_000_000, den);
    assert(den * 1_000_000 == 1_000_000 * den) by (nonlinear_arith);
    if d == 0 || d == 180000 {
        assert(u == 0) by (nonlinear_arith)
            requires
                u == d * (180000 - d),
                d == 0 || d == 180000,
        ;
        assert(num == 0);
        assert((0int) / den == 0) by {
            lemma_div_multiples_vanish(0, den);
            assert(den * 0 == 0) by (nonlinear_arith);
        }
    }
    if d == 90000 {
        assert(u == 8_100_000_000) by (nonlinear_arith)
            requires
                u == d * (180000 - d),
                d == 90000,
        ;
        assert(num == 1_000_000 * den);
    }
}

/// Evaluates the sine.  Exact at every multiple of a quarter turn.
pub fn sin_mdeg(d: i64) -> (r: i64)
    requires
        0 <= d <= 360000,
    ensures
        r == sin_spec(d as int),
        -1_000_000 <= r <= 1_000_000,
        d == 0 || d == 180000 || d == 360000 ==> r == 0,
        d == 90000 ==> r == 1_000_000,
        d == 270000 ==> r == -1_000_000,
{
    let half = if d <= 180000 {
        d
    } else {
        d - 180000
    };
    proof {
        lemma_sin_half_bounds(half as int);
        assert(0 <= (half as int) * (180000 - half as int) <= 8_100_000_000) by (nonlinear_arith)
            requires
                0 <= half <= 180000,
        ;
    }
    let u: i64 = half * (180000 - half);
    let num: u64 = 4_000_000u64 * (u as u64);
    let den: u64 = (40_500_000_000i64 - u) as u64;
    let s = (num / den) as i64;
    if d <= 180000 {
        s
    } else {
        -s
    }
}

/// Evaluates the cosine.  Exact at every multiple of a quarter turn.
pub fn cos_mdeg(d: i64) -> (r: i64)
    requires
        0 <= d <= 360000,
    ensures
        r == cos_spec(d as int),
        -1_000_000 <= r <= 1_000_000,
        d == 90000 || d == 270000 ==> r == 0,
        d == 0 || d == 360000 ==> r == 1_000_000,
        d == 180000 ==> r == -1_000_000,
{
    let shifted = (d + 90000) % 360000;
    proof {
        vstd::arithmetic::div_mod::lemma_mod_pos_bound((d + 90000) as int, 360000);
    }
    sin_mdeg(shifted)
}

/// `r * t / 1_000_000` with truncation toward zero: scales a radius by a
/// fixed-point sine or cosine.  The magnitude never exceeds `r`.
pub open spec fn scale_micro(r: int, t: int) -> int {
    if t >= 0 {
        r * t / 1_000_000
    } else {
        -(r * (-t) / 1_000_000)
    }
}

/// Scales a radius by a fixed-point factor.
pub fn scale_by_micro(r: i64, t: i64) -> (res: i64)
    requires
        0 <= r <= 1_000_000_000,
        -1_000_000 <= t <= 1_000_000,
    ensures
        res == scale_micro(r as int, t as int),
        -r <= res <= r,
        t == 0 ==> res == 0,
        t == 1_000_000 ==> res == r,
        t == -1_000_000 ==> res == -r,
{
    let mag: i64 = if t >= 0 {
        t
    } else {
        -t
    };
    proof {
        let ri = r as int;
        let mi = mag as int;
        assert(0 <= ri * mi <= 1_000_000_000_000_000int) by (nonlinear_arith)
            requires
                0 <= ri <= 1_000_000_000,
                0 <= mi <= 1_000_000,
        ;
        assert(ri * mi <= ri * 1_000_000) by (nonlinear_arith)
            requires
                0 <= ri,
                mi <= 1_000_000,
        ;
        lemma_div_is_ordered(ri * mi, ri * 1_000_000, 1_000_000);
        assert(ri * 1_000_000 == 1_000_000 * ri) by (nonlinear_arith);
        lemma_div_multiples_vanish(ri, 1_000_000);
        lemma_div_pos_is_pos(ri * mi, 1_000_000);
    }
    let scaled = (((r as u64) * (mag as u64)) / 1_000_000u64) as i64;
    if t >= 0 {
        scaled
    } else {
        -scaled
    }
}

} // verus!

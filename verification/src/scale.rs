//! Value normalization and scaling.
//!
//! Charts map data values into pixel coordinates by linear interpolation
//! ([`value_to_pixel`]) and round a raw maximum up to a visually clean axis
//! maximum ([`nice_max`]).  Both directions of the pixel mapping are exact
//! integer computations on milli-units, so their guarantees — monotonicity,
//! endpoint exactness, a bounded round trip, and the idempotence of
//! [`nice_max`] — are proved, not approximated.

use vstd::prelude::*;
use vstd::arithmetic::div_mod::{
    lemma_div_is_ordered,
    lemma_div_multiples_vanish,
    lemma_div_pos_is_pos,
    lemma_fundamental_div_mod,
    lemma_mod_pos_bound,
};
use crate::models::{valid_value, VALUE_LIMIT};

verus! {

/// Largest magnitude (in milli-pixels) of a pixel coordinate handed to the
/// scale utilities.
pub const PIXEL_LIMIT: i64 = 1_000_000;

/// A product of a value-sized factor and a pixel-sized factor fits easily
/// in a `u64`.
proof fn mul_fits_u64(a: int, k: int)
    requires
        0 <= a <= 2_000_000_000_000,
        0 <= k <= 2_000_000,
    ensures
        0 <= a * k <= 4_000_000_000_000_000_000,
        a * k == k * a,
{
    assert(0 <= a * k <= 4_000_000_000_000_000_000 && a * k == k * a) by (nonlinear_arith)
        requires
            0 <= a <= 2_000_000_000_000,
            0 <= k <= 2_000_000,
    ;
}

/// Linear interpolation of `value` from the range `[vmin, vmax]` into the
/// pixel range from `plo` to `phi` (which may run downward, as a Y axis
/// does).  A degenerate value range maps everything onto the midpoint of
/// the pixel range: flat data draws as a flat line in the middle rather
/// than dividing by zero.
pub open spec fn v2p(value: int, vmin: int, vmax: int, plo: int, phi: int) -> int {
    if vmax <= vmin {
        (plo + phi) / 2
    } else if plo <= phi {
        plo + (value - vmin) * (phi - plo) / (vmax - vmin)
    } else {
        plo - (value - vmin) * (plo - phi) / (vmax - vmin)
    }
}

/// The inverse interpolation: the value a pixel position stands for.
/// Defined for an upward pixel range; a degenerate pixel range gives the
/// low end of the value range back.
pub open spec fn p2v(p: int, vmin: int, vmax: int, plo: int, phi: int) -> int {
    if phi <= plo {
        vmin
    } else {
        vmin + (p - plo) * (vmax - vmin) / (phi - plo)
    }
}

/// Maps a data value into a pixel range.
pub fn value_to_pixel(value: i64, vmin: i64, vmax: i64, plo: i64, phi: i64) -> (r: i64)
    requires
        valid_value(value as int),
        valid_value(vmin as int),
        valid_value(vmax as int),
        vmin <= value <= vmax,
        0 <= plo <= PIXEL_LIMIT,
        0 <= phi <= PIXEL_LIMIT,
    ensures
        r == v2p(value as int, vmin as int, vmax as int, plo as int, phi as int),
        plo <= phi ==> plo <= r <= phi,
        phi <= plo ==> phi <= r <= plo,
{
    if vmax <= vmin {
        (plo + phi) / 2
    } else if plo <= phi {
        proof {
            mul_fits_u64((value - vmin) as int, (phi - plo) as int);
        }
        let num: u64 = ((value - vmin) as u64) * ((phi - plo) as u64);
        let q: u64 = num / ((vmax - vmin) as u64);
        proof {
            let a = value - vmin;
            let k = phi - plo;
            let d = vmax - vmin;
            assert(a * k <= d * k) by (nonlinear_arith)
                requires
                    0 <= a <= d,
                    0 <= k,
            ;
            lemma_div_is_ordered(a * k, d * k, d);
            lemma_div_multiples_vanish(k, d);
            assert((d * k) == (d * k));
            assert((d * k) / d == k);
            lemma_div_pos_is_pos(a * k, d);
            assert(a * k >= 0) by (nonlinear_arith)
                requires
                    0 <= a,
                    0 <= k,
            ;
        }
        plo + (q as i64)
    } else {
        proof {
            mul_fits_u64((value - vmin) as int, (plo - phi) as int);
        }
        let num: u64 = ((value - vmin) as u64) * ((plo - phi) as u64);
        let q: u64 = num / ((vmax - vmin) as u64);
        proof {
            let a = value - vmin;
            let k = plo - phi;
            let d = vmax - vmin;
            assert(a * k <= d * k) by (nonlinear_arith)
                requires
                    0 <= a <= d,
                    0 <= k,
            ;
            lemma_div_is_ordered(a * k, d * k, d);
            lemma_div_multiples_vanish(k, d);
            assert((d * k) / d == k);
            lemma_div_pos_is_pos(a * k, d);
            assert(a * k >= 0) by (nonlinear_arith)
                requires
                    0 <= a,
                    0 <= k,
            ;
        }
        plo - (q as i64)
    }
}

/// Maps a pixel position back to the data value it stands for.
pub fn pixel_to_value(p: i64, vmin: i64, vmax: i64, plo: i64, phi: i64) -> (r: i64)
    requires
        valid_value(vmin as int),
        valid_value(vmax as int),
        vmin <= vmax,
        0 <= plo <= PIXEL_LIMIT,
        0 <= phi <= PIXEL_LIMIT,
        plo <= p <= phi,
    ensures
        r == p2v(p as int, vmin as int, vmax as int, plo as int, phi as int),
        vmin <= r <= vmax,
{
    if phi <= plo {
        vmin
    } else {
        proof {
            mul_fits_u64((vmax - vmin) as int, (p - plo) as int);
        }
        let num: u64 = ((p - plo) as u64) * ((vmax - vmin) as u64);
        let q: u64 = num / ((phi - plo) as u64);
        proof {
            let a = p - plo;
            let k = vmax - vmin;
            let d = phi - plo;
            assert(a * k <= d * k) by (nonlinear_arith)
                requires
                    0 <= a <= d,
                    0 <= k,
            ;
            lemma_div_is_ordered(a * k, d * k, d);
            lemma_div_multiples_vanish(k, d);
            assert((d * k) / d == k);
            lemma_div_pos_is_pos(a * k, d);
            assert(a * k >= 0) by (nonlinear_arith)
                requires
                    0 <= a,
                    0 <= k,
            ;
        }
        vmin + (q as i64)
    }
}

/// The pixel mapping hits both ends of the pixel range exactly:
/// the low value lands on `plo` and the high value on `phi`.
pub proof fn lemma_value_to_pixel_endpoints(vmin: int, vmax: int, plo: int, phi: int)
    requires
        vmin < vmax,
    ensures
        v2p(vmin, vmin, vmax, plo, phi) == plo,
        v2p(vmax, vmin, vmax, plo, phi) == phi,
{
    let d = vmax - vmin;
    if plo <= phi {
        let k = phi - plo;
        lemma_div_multiples_vanish(0, d);
        lemma_div_multiples_vanish(k, d);
        assert(d * 0 == 0 && 0 * k == 0 && d * k == k * d) by (nonlinear_arith);
        assert((vmax - vmin) * (phi - plo) == d * k);
        assert((vmin - vmin) * (phi - plo) == 0 * k);
    } else {
        let k = plo - phi;
        lemma_div_multiples_vanish(0, d);
        lemma_div_multiples_vanish(k, d);
        assert(d * 0 == 0 && 0 * k == 0 && d * k == k * d) by (nonlinear_arith);
        assert((vmax - vmin) * (plo - phi) == d * k);
        assert((vmin - vmin) * (plo - phi) == 0 * k);
    }
}

/// The pixel mapping is monotonic: a larger value never lands on a smaller
/// pixel (for an upward pixel range; a downward range reverses the order).
pub proof fn lemma_value_to_pixel_monotonic(
    v1: int,
    v2: int,
    vmin: int,
    vmax: int,
    plo: int,
    phi: int,
)
    requires
        vmin <= v1 <= v2 <= vmax,
    ensures
        plo <= phi ==> v2p(v1, vmin, vmax, plo, phi) <= v2p(v2, vmin, vmax, plo, phi),
        phi <= plo ==> v2p(v2, vmin, vmax, plo, phi) <= v2p(v1, vmin, vmax, plo, phi),
{
    if vmax > vmin {
        let d = vmax - vmin;
        if plo <= phi {
            let k = phi - plo;
            assert((v1 - vmin) * k <= (v2 - vmin) * k) by (nonlinear_arith)
                requires
                    v1 <= v2,
                    k >= 0,
            ;
            lemma_div_is_ordered((v1 - vmin) * k, (v2 - vmin) * k, d);
            if phi == plo {
                assert((v1 - vmin) * k == (v2 - vmin) * k) by (nonlinear_arith)
                    requires
                        k == 0,
                ;
            }
        } else {
            let k = plo - phi;
            assert((v1 - vmin) * k <= (v2 - vmin) * k) by (nonlinear_arith)
                requires
                    v1 <= v2,
                    k >= 0,
            ;
            lemma_div_is_ordered((v1 - vmin) * k, (v2 - vmin) * k, d);
        }
    }
}

/// Round trip: mapping a value to a pixel and back recovers the value up to
/// the worth of one pixel, `(vmax - vmin) / (phi - plo)`, and never
/// overshoots it.
pub proof fn lemma_value_to_pixel_inverse(v: int, vmin: int, vmax: int, plo: int, phi: int)
    requires
        vmin <= v <= vmax,
        vmin < vmax,
        plo < phi,
    ensures
        ({
            let w = p2v(v2p(v, vmin, vmax, plo, phi), vmin, vmax, plo, phi);
            v - (vmax - vmin) / (phi - plo) - 1 <= w <= v
        }),
{
    let a = v - vmin;
    let d = vmax - vmin;
    let k = phi - plo;
    let q = (a * k) / d;
    let r1 = (a * k) % d;
    lemma_fundamental_div_mod(a * k, d);
    lemma_mod_pos_bound(a * k, d);
    assert(a * k == d * q + r1);
    // The pixel lands inside the range, so p2v takes its interpolating arm.
    assert(a * k >= 0) by (nonlinear_arith)
        requires
            a >= 0,
            k >= 0,
    ;
    lemma_div_pos_is_pos(a * k, d);
    let p = v2p(v, vmin, vmax, plo, phi);
    assert(p == plo + q);
    let w = p2v(p, vmin, vmax, plo, phi);
    assert(w == vmin + (q * d) / k);
    assert(q * d == a * k - r1) by (nonlinear_arith)
        requires
            a * k == d * q + r1,
    ;
    // Upper bound: q*d <= a*k, so (q*d)/k <= (a*k)/k == a.
    lemma_div_is_ordered(q * d, a * k, k);
    assert(a * k == k * a) by (nonlinear_arith);
    lemma_div_multiples_vanish(a, k);
    assert((q * d) / k <= a);
    // Lower bound: q*d >= k*(a - c - 1) where c = d/k.
    let c = d / k;
    let s = d % k;
    lemma_fundamental_div_mod(d, k);
    lemma_mod_pos_bound(d, k);
    assert(q * d >= k * (a - c - 1)) by (nonlinear_arith)
        requires
            q * d == a * k - r1,
            0 <= r1 < d,
            d == k * c + s,
            0 <= s < k,
    ;
    lemma_div_is_ordered(k * (a - c - 1), q * d, k);
    lemma_div_multiples_vanish(a - c - 1, k);
    assert((q * d) / k >= a - c - 1);
}

/// True of 1, 10, 100, and every other power of ten.
pub open spec fn is_pow10(m: int) -> bool
    decreases m,
{
    if m <= 0 {
        false
    } else if m == 1 {
        true
    } else {
        m % 10 == 0 && is_pow10(m / 10)
    }
}

/// The largest power of ten not exceeding `x` (and 1 for anything below 10).
pub open spec fn mag10(x: int) -> int
    decreases x,
{
    if x < 10 {
        1
    } else {
        10 * mag10(x / 10)
    }
}

/// A raw axis maximum rounded up to a visually clean value: the next
/// multiple of the magnitude of `x`.  Non-positive inputs round to zero.
pub open spec fn nice_max_spec(x: int) -> int {
    if x <= 0 {
        0
    } else {
        ((x + mag10(x) - 1) / mag10(x)) * mag10(x)
    }
}

proof fn lemma_mag10_props(x: int)
    requires
        x >= 1,
    ensures
        is_pow10(mag10(x)),
        mag10(x) <= x < 10 * mag10(x),
    decreases x,
{
    if x < 10 {
    } else {
        let y = x / 10;
        lemma_fundamental_div_mod(x, 10);
        lemma_mod_pos_bound(x, 10);
        lemma_mag10_props(y);
        let m = mag10(y);
        assert(mag10(x) == 10 * m);
        assert(is_pow10(10 * m)) by {
            assert((10 * m) % 10 == 0 && (10 * m) / 10 == m) by {
                lemma_div_multiples_vanish(m, 10);
                assert(10 * m == 10 * m);
                lemma_fundamental_div_mod(10 * m, 10);
            }
        }
    }
}

proof fn lemma_pow10_unique(x: int, m: int)
    requires
        x >= 1,
        is_pow10(m),
        m <= x < 10 * m,
    ensures
        mag10(x) == m,
    decreases x,
{
    if x < 10 {
        if m != 1 {
            assert(m % 10 == 0 && is_pow10(m / 10));
            assert(m >= 10) by {
                lemma_fundamental_div_mod(m, 10);
                lemma_mod_pos_bound(m, 10);
                assert(m / 10 >= 1);
            }
            assert(false);
        }
    } else {
        assert(m >= 2) by {
            if m == 1 {
                assert(x < 10);
            }
        }
        assert(m % 10 == 0 && is_pow10(m / 10));
        assert(m >= 10) by {
            lemma_fundamental_div_mod(m, 10);
            lemma_mod_pos_bound(m, 10);
            assert(m / 10 >= 1);
        }
        let y = x / 10;
        lemma_fundamental_div_mod(x, 10);
        lemma_mod_pos_bound(x, 10);
        lemma_div_is_ordered(m, x, 10);
        lemma_fundamental_div_mod(m, 10);
        assert(m / 10 <= y);
        assert(x <= 10 * m - 1);
        lemma_div_is_ordered(x, 10 * m - 1, 10);
        assert((10 * m - 1) / 10 == m - 1) by {
            lemma_fundamental_div_mod(10 * m - 1, 10);
            lemma_mod_pos_bound(10 * m - 1, 10);
            assert(10 * m - 1 == 10 * (m - 1) + 9) by (nonlinear_arith);
            assert((10 * m - 1) / 10 == m - 1) by (nonlinear_arith)
                requires
                    10 * m - 1 == 10 * ((10 * m - 1) / 10) + (10 * m - 1) % 10,
                    0 <= (10 * m - 1) % 10 < 10,
                    10 * m - 1 == 10 * (m - 1) + 9,
            ;
        }
        assert(y < m);
        lemma_pow10_unique(y, m / 10);
        assert(mag10(x) == 10 * (m / 10));
        assert(10 * (m / 10) == m) by {
            lemma_fundamental_div_mod(m, 10);
        }
    }
}

/// `nice_max` never shrinks its input.
pub proof fn lemma_nice_max_ge(x: int)
    requires
        x >= 1,
    ensures
        nice_max_spec(x) >= x,
        nice_max_spec(x) <= 10 * x,
{
    lemma_mag10_props(x);
    let m = mag10(x);
    let c = (x + m - 1) / m;
    lemma_fundamental_div_mod(x + m - 1, m);
    lemma_mod_pos_bound(x + m - 1, m);
    assert(c * m >= x) by (nonlinear_arith)
        requires
            x + m - 1 == m * c + (x + m - 1) % m,
            0 <= (x + m - 1) % m < m,
    ;
    // c <= 10 because x < 10*m.
    assert(c <= 10) by (nonlinear_arith)
        requires
            x + m - 1 == m * c + (x + m - 1) % m,
            0 <= (x + m - 1) % m,
            x < 10 * m,
            m >= 1,
    ;
    assert(c * m <= 10 * m) by (nonlinear_arith)
        requires
            c <= 10,
            m >= 1,
    ;
    assert(10 * m <= 10 * x) by (nonlinear_arith)
        requires
            m <= x,
    ;
}

/// `nice_max` is idempotent: a value that is already nice stays put.
pub proof fn lemma_nice_max_idempotent(x: int)
    requires
        x >= 1,
    ensures
        nice_max_spec(nice_max_spec(x)) == nice_max_spec(x),
{
    lemma_mag10_props(x);
    let m = mag10(x);
    let c = (x + m - 1) / m;
    lemma_fundamental_div_mod(x + m - 1, m);
    lemma_mod_pos_bound(x + m - 1, m);
    let r = nice_max_spec(x);
    assert(r == c * m);
    assert(1 <= c <= 10) by (nonlinear_arith)
        requires
            x + m - 1 == m * c + (x + m - 1) % m,
            0 <= (x + m - 1) % m < m,
            1 <= m <= x < 10 * m,
    ;
    if c <= 9 {
        assert(m <= c * m && c * m < 10 * m) by (nonlinear_arith)
            requires
                1 <= c <= 9,
                m >= 1,
        ;
        lemma_pow10_unique(r, m);
        assert(mag10(r) == m);
        // r is a multiple of m, so rounding it up to a multiple of m keeps it.
        assert((c * m + m - 1) / m == c) by {
            assert(c * m + m - 1 == m * c + (m - 1)) by (nonlinear_arith);
            lemma_fundamental_div_mod(c * m + m - 1, m);
            lemma_mod_pos_bound(c * m + m - 1, m);
            assert((c * m + m - 1) / m == c) by (nonlinear_arith)
                requires
                    c * m + m - 1 == m * ((c * m + m - 1) / m) + (c * m + m - 1) % m,
                    0 <= (c * m + m - 1) % m < m,
                    c * m + m - 1 == m * c + (m - 1),
                    0 <= m - 1 < m,
            ;
        }
        assert(nice_max_spec(r) == c * m);
    } else {
        // c == 10: the result is the next power of ten.
        assert(r == 10 * m) by (nonlinear_arith)
            requires
                r == c * m,
                c == 10,
        ;
        assert(is_pow10(10 * m)) by {
            assert((10 * m) % 10 == 0 && (10 * m) / 10 == m) by {
                lemma_div_multiples_vanish(m, 10);
                lemma_fundamental_div_mod(10 * m, 10);
            }
        }
        assert(10 * m <= r < 10 * (10 * m)) by (nonlinear_arith)
            requires
                r == 10 * m,
                m >= 1,
        ;
        lemma_pow10_unique(r, 10 * m);
        assert(mag10(r) == 10 * m);
        assert((r + 10 * m - 1) / (10 * m) == 1) by {
            lemma_fundamental_div_mod(r + 10 * m - 1, 10 * m);
            lemma_mod_pos_bound(r + 10 * m - 1, 10 * m);
            assert((r + 10 * m - 1) / (10 * m) == 1) by (nonlinear_arith)
                requires
                    r == 10 * m,
                    m >= 1,
                    r + 10 * m - 1 == (10 * m) * ((r + 10 * m - 1) / (10 * m)) + (r + 10 * m - 1)
                        % (10 * m),
                    0 <= (r + 10 * m - 1) % (10 * m) < 10 * m,
            ;
        }
        assert(nice_max_spec(r) == 1 * (10 * m));
        assert(1 * (10 * m) == r) by (nonlinear_arith)
            requires
                r == 10 * m,
        ;
    }
}

/// Rounds a raw axis maximum up to a visually clean value.  The result is
/// never smaller than the input, and feeding it back in changes nothing.
pub fn nice_max(x: i64) -> (r: i64)
    requires
        x <= VALUE_LIMIT,
    ensures
        r == nice_max_spec(x as int),
        r >= x,
        r >= 0,
        x > 0 ==> r <= 10 * x && nice_max_spec(r as int) == r,
{
    if x <= 0 {
        return 0;
    }
    let mut m: i64 = 1;
    while m * 10 <= x
        invariant
            1 <= m <= x <= VALUE_LIMIT,
            is_pow10(m as int),
        decreases x - m,
    {
        proof {
            assert(is_pow10(10 * (m as int))) by {
                lemma_div_multiples_vanish(m as int, 10);
                lemma_fundamental_div_mod(10 * (m as int), 10);
            }
        }
        m = m * 10;
    }
    proof {
        lemma_pow10_unique(x as int, m as int);
    }
    let c = ((x as u64) + (m as u64) - 1) / (m as u64);
    proof {
        let xi = x as int;
        let mi = m as int;
        lemma_fundamental_div_mod(xi + mi - 1, mi);
        lemma_mod_pos_bound(xi + mi - 1, mi);
        assert(1 <= c <= 10) by (nonlinear_arith)
            requires
                xi + mi - 1 == mi * (c as int) + (xi + mi - 1) % mi,
                0 <= (xi + mi - 1) % mi < mi,
                1 <= mi <= xi < 10 * mi,
        ;
        assert((c as int) * mi <= 10 * mi) by (nonlinear_arith)
            requires
                c <= 10,
                mi >= 1,
        ;
        lemma_nice_max_ge(xi);
        lemma_nice_max_idempotent(xi);
    }
    let r = (c as i64) * m;
    r
}

/// The largest element of a non-empty list of values.
pub fn max_of(v: &Vec<i64>) -> (r: i64)
    requires
        v@.len() > 0,
    ensures
        forall|i: int| 0 <= i < v@.len() ==> v@[i] <= r,
        exists|i: int| 0 <= i < v@.len() && v@[i] == r,
{
    let mut r = v[0];
    let mut i: usize = 1;
    while i < v.len()
        invariant
            1 <= i <= v@.len(),
            forall|k: int| 0 <= k < i ==> v@[k] <= r,
            exists|k: int| 0 <= k < i && v@[k] == r,
        decreases v@.len() - i,
    {
        if v[i] > r {
            r = v[i];
        }
        i += 1;
    }
    r
}

/// The smallest element of a non-empty list of values.
pub fn min_of(v: &Vec<i64>) -> (r: i64)
    requires
        v@.len() > 0,
    ensures
        forall|i: int| 0 <= i < v@.len() ==> r <= v@[i],
        exists|i: int| 0 <= i < v@.len() && v@[i] == r,
{
    let mut r = v[0];
    let mut i: usize = 1;
    while i < v.len()
        invariant
            1 <= i <= v@.len(),
            forall|k: int| 0 <= k < i ==> r <= v@[k],
            exists|k: int| 0 <= k < i && v@[k] == r,
        decreases v@.len() - i,
    {
        if v[i] < r {
            r = v[i];
        }
        i += 1;
    }
    r
}

} // verus!

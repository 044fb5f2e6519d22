//! Integer arithmetic shared by the simulation: rounding toward zero,
//! saturation and the integer square root.

use vstd::prelude::*;

verus! {

/// Thousandths per world unit.
pub const SUBUNITS: i64 = 1_000;

/// Microseconds per second.
pub const MICROS: i64 = 1_000_000;

/// Length of a unit vector in its fixed-point form.
pub const UNIT: i64 = 1_000_000;

/// Factor by which a squared length is scaled before its root is taken for
/// a direction, so that the root carries twenty binary places.
pub const ROOT_SCALE: i64 = 1_048_576;

/// Largest magnitude of a player or anchor coordinate.
pub const WORLD_LIMIT: i64 = 1_000_000_000_000;

/// Largest magnitude of a coordinate handed to the segment cast.
pub const POINT_LIMIT: i64 = 2_000_000_000_000;

/// Largest magnitude of an obstacle's corner coordinate or extent.
pub const OBJECT_LIMIT: i64 = 100_000_000_000;

/// Largest magnitude of a velocity component.
pub const SPEED_LIMIT: i64 = 1_000_000_000_000;

/// Largest rope length the state can hold.
pub const LENGTH_LIMIT: i64 = 6_000_000_000_000;

/// Magnitude.
pub open spec fn abs(v: int) -> int {
    if v < 0 { -v } else { v }
}

/// Quotient rounded toward zero.
pub open spec fn trunc_div(a: int, b: int) -> int {
    if a >= 0 { a / b } else { -((-a) / b) }
}

/// `v` saturated to `[-limit, limit]`.
pub open spec fn clamp(v: int, limit: int) -> int {
    if v < -limit { -limit } else if v > limit { limit } else { v }
}

/// `r` is the integer square root of `n`.
pub open spec fn is_sqrt_floor(n: int, r: int) -> bool {
    0 <= r && r * r <= n && n < (r + 1) * (r + 1)
}

/// The integer square root of `n`: the largest `r` with `r * r <= n`.
pub open spec fn sqrt_floor(n: int) -> int {
    choose|r: int| is_sqrt_floor(n, r)
}

/// The product of two bounded values is bounded by the product of the
/// bounds.
pub proof fn lemma_product_bound(a: int, b: int, m: int, n: int)
    requires
        -m <= a <= m,
        -n <= b <= n,
    ensures
        -(m * n) <= a * b <= m * n,
{
    assert(-(m * n) <= a * b <= m * n) by (nonlinear_arith)
        requires
            -m <= a <= m,
            -n <= b <= n,
    ;
}

/// A quotient rounded toward zero keeps the numerator's sign and does not
/// exceed its magnitude.
pub proof fn lemma_trunc_div_bound(a: int, b: int)
    requires
        b > 0,
    ensures
        abs(trunc_div(a, b)) <= abs(a),
        a >= 0 ==> trunc_div(a, b) >= 0,
        a <= 0 ==> trunc_div(a, b) <= 0,
        b == 1 ==> trunc_div(a, b) == a,
{
    let m = abs(a);
    assert(0 <= m / b <= m) by (nonlinear_arith)
        requires
            m >= 0,
            b > 0,
    ;
}

/// A number has at most one integer square root.
pub proof fn lemma_sqrt_floor_unique(n: int, a: int, b: int)
    requires
        is_sqrt_floor(n, a),
        is_sqrt_floor(n, b),
    ensures
        a == b,
{
    if a < b {
        assert((a + 1) * (a + 1) <= b * b) by (nonlinear_arith)
            requires
                0 <= a,
                a + 1 <= b,
        ;
    } else if b < a {
        assert((b + 1) * (b + 1) <= a * a) by (nonlinear_arith)
            requires
                0 <= b,
                b + 1 <= a,
        ;
    }
}

/// Every natural number has an integer square root.
pub proof fn lemma_sqrt_floor_exists(n: int)
    requires
        n >= 0,
    ensures
        is_sqrt_floor(n, sqrt_floor(n)),
    decreases n,
{
    if n == 0 {
        assert(is_sqrt_floor(0, 0));
    } else {
        lemma_sqrt_floor_exists(n - 1);
        let r = sqrt_floor(n - 1);
        if (r + 1) * (r + 1) <= n {
            assert((r + 1) * (r + 1) < (r + 2) * (r + 2)) by (nonlinear_arith)
                requires
                    0 <= r,
            ;
            assert(is_sqrt_floor(n, r + 1));
        } else {
            assert(is_sqrt_floor(n, r));
        }
    }
}

/// Whoever is a square root of `n` is the square root of `n`.
pub proof fn lemma_sqrt_floor_is(n: int, r: int)
    requires
        is_sqrt_floor(n, r),
    ensures
        sqrt_floor(n) == r,
{
    lemma_sqrt_floor_unique(n, r, sqrt_floor(n));
}

/// A value whose square does not exceed `n` does not exceed the root of `n`.
pub proof fn lemma_sqrt_floor_dominates(n: int, r: int, v: int)
    requires
        is_sqrt_floor(n, r),
        v * v <= n,
    ensures
        abs(v) <= r,
{
    let m = abs(v);
    assert(m * m == v * v) by (nonlinear_arith)
        requires
            m == v || m == -v,
    ;
    if m > r {
        assert((r + 1) * (r + 1) <= m * m) by (nonlinear_arith)
            requires
                0 <= r,
                r + 1 <= m,
        ;
    }
}

/// A value scaled by a fraction `t / len` of the unit interval keeps its sign
/// and does not grow.
pub proof fn lemma_scaled_component(c: int, t: int, len: int)
    requires
        len > 0,
        0 <= t <= len,
    ensures
        abs(trunc_div(c * t, len)) <= abs(c),
        c >= 0 ==> trunc_div(c * t, len) >= 0,
        c <= 0 ==> trunc_div(c * t, len) <= 0,
{
    let m = abs(c);
    assert(c >= 0 ==> c * t >= 0) by (nonlinear_arith)
        requires
            0 <= t,
    ;
    assert(c <= 0 ==> c * t <= 0) by (nonlinear_arith)
        requires
            0 <= t,
    ;
    lemma_trunc_div_bound(c * t, len);
    assert(abs(c * t) == m * t) by (nonlinear_arith)
        requires
            m == abs(c),
            0 <= t,
    ;
    assert((m * t) / len <= m) by (nonlinear_arith)
        requires
            0 <= m,
            0 <= t <= len,
            len > 0,
    ;
}

/// The exact product of two 64-bit values.
pub fn mul_wide(a: i64, b: i64) -> (p: i128)
    ensures
        p == a * b,
        p != i128::MIN,
{
    proof {
        lemma_product_bound(a as int, b as int, 0x8000_0000_0000_0000, 0x8000_0000_0000_0000);
    }
    (a as i128) * (b as i128)
}

/// The exact product of a wide value and a narrow one.
pub fn mul_big(a: i128, b: i128) -> (p: i128)
    requires
        -40_000_000_000_000_000_000_000_000 <= a <= 40_000_000_000_000_000_000_000_000,
        -4_000_000_000_000 <= b <= 4_000_000_000_000,
    ensures
        p == a * b,
        -160_000_000_000_000_000_000_000_000_000_000_000_000 <= p
            <= 160_000_000_000_000_000_000_000_000_000_000_000_000,
{
    proof {
        lemma_product_bound(
            a as int,
            b as int,
            40_000_000_000_000_000_000_000_000,
            4_000_000_000_000,
        );
    }
    a * b
}

/// Quotient rounded to the nearest integer, halves away from zero.
pub open spec fn round_div(a: int, b: int) -> int {
    if a >= 0 {
        (2 * a + b) / (2 * b)
    } else {
        -((2 * (-a) + b) / (2 * b))
    }
}

/// A quotient rounded to nearest keeps the numerator's sign and is off by
/// at most half the divisor.
pub proof fn lemma_round_div(a: int, b: int)
    requires
        b > 0,
    ensures
        abs(2 * (b * round_div(a, b)) - 2 * a) <= b,
        a >= 0 ==> round_div(a, b) >= 0,
        a <= 0 ==> round_div(a, b) <= 0,
{
    let m = abs(a);
    let q = (2 * m + b) / (2 * b);
    assert(0 <= q && (2 * b) * q <= 2 * m + b < (2 * b) * q + 2 * b) by (nonlinear_arith)
        requires
            m >= 0,
            b > 0,
            q == (2 * m + b) / (2 * b),
    ;
    assert((2 * b) * q == 2 * (b * q)) by (nonlinear_arith);
    if m == 0 {
        assert(q == 0) by (nonlinear_arith)
            requires
                (2 * b) * q <= b,
                b > 0,
                q >= 0,
        ;
    }
    if a < 0 {
        assert(b * (-q) == -(b * q)) by (nonlinear_arith);
    }
}

/// A quotient rounded to nearest does not exceed a whole bound of the
/// exact quotient.
pub proof fn lemma_round_div_bound(a: int, b: int, k: int)
    requires
        b > 0,
        k >= 0,
        abs(a) <= k * b,
    ensures
        abs(round_div(a, b)) <= k,
{
    let m = abs(a);
    let q = (2 * m + b) / (2 * b);
    assert(0 <= q <= k) by (nonlinear_arith)
        requires
            0 <= m <= k * b,
            b > 0,
            k >= 0,
            q == (2 * m + b) / (2 * b),
    ;
}

/// Division that rounds to nearest, halves away from zero.
pub fn div_round(a: i128, b: i128) -> (q: i128)
    requires
        0 < b <= 40_000_000_000_000_000_000_000_000_000_000_000_000,
        -40_000_000_000_000_000_000_000_000_000_000_000_000 <= a
            <= 40_000_000_000_000_000_000_000_000_000_000_000_000,
    ensures
        q == round_div(a as int, b as int),
        abs(2 * (b * q) - 2 * a) <= b,
        a >= 0 ==> q >= 0,
        a <= 0 ==> q <= 0,
{
    proof {
        lemma_round_div(a as int, b as int);
    }
    if a >= 0 {
        (2 * a + b) / (2 * b)
    } else {
        -((2 * (-a) + b) / (2 * b))
    }
}

/// Factor by which a squared length `n` is scaled before its root is taken
/// for a share of a rope: the shorter the vector, the finer the root, so
/// that the root is always at least four times the longest rope.
pub open spec fn root_scale(n: int) -> int {
    if n < 0x10_0000_0000 {
        0x4000_0000_0000
    } else if n < 0x1000_0000_0000_0000 {
        0x4_0000_0000
    } else {
        0x20_0000
    }
}

/// `c * m / sqrt(n)`, rounded to nearest: the share `c / sqrt(n)` of `m`.
pub open spec fn spec_nearest_over_root(c: int, m: int, n: int) -> int {
    round_div(c * root_scale(n) * m, sqrt_floor(n * root_scale(n) * root_scale(n)))
}

/// The share `c / sqrt(n)` of `m`, rounded to nearest, for a component `c`
/// of a vector of squared length `n`.
pub fn nearest_over_root(c: i64, m: i64, n: u128) -> (q: i128)
    requires
        0 < n <= 32_000_000_000_000_000_000_000_000,
        c * c <= n,
        -4_000_000_000_000 <= c <= 4_000_000_000_000,
        0 <= m <= LENGTH_LIMIT,
    ensures
        q == spec_nearest_over_root(c as int, m as int, n as int),
        abs(q as int) <= m,
        c >= 0 ==> q >= 0,
        c <= 0 ==> q <= 0,
{
    let mut s: i128 = 0x20_0000;
    let mut scaled: u128 = 0;
    if n < 0x10_0000_0000 {
        s = 0x4000_0000_0000;
        scaled = n * 0x1000_0000_0000_0000_0000_0000;
    } else if n < 0x1000_0000_0000_0000 {
        s = 0x4_0000_0000;
        scaled = n * 0x1_0000_0000_0000_0000_0;
    } else {
        scaled = n * 0x400_0000_0000;
    }
    let root: u64 = isqrt(scaled);
    proof {
        assert(s == root_scale(n as int));
        assert(scaled == n * s * s);
        assert(s * s <= scaled);
        lemma_sqrt_floor_dominates(scaled as int, root as int, s as int);
        assert((c * s) * (c * s) <= scaled) by (nonlinear_arith)
            requires
                c * c <= n,
                scaled == n * s * s,
        ;
        lemma_sqrt_floor_dominates(scaled as int, root as int, c * s);
        lemma_product_bound(c as int, s as int, 4_000_000_000_000, 0x4000_0000_0000);
    }
    let share: i128 = c as i128 * s;
    proof {
        lemma_product_bound(share as int, m as int, 0xffff_ffff_ffff_ffff, 6_000_000_000_000);
        assert(abs(share * m) <= m * root) by (nonlinear_arith)
            requires
                abs(share as int) <= root,
                m >= 0,
        ;
        lemma_round_div_bound(share * m, root as int, m as int);
        assert(c >= 0 ==> share * m >= 0) by (nonlinear_arith)
            requires
                share == c * s,
                s > 0,
                m >= 0,
        ;
        assert(c <= 0 ==> share * m <= 0) by (nonlinear_arith)
            requires
                share == c * s,
                s > 0,
                m >= 0,
        ;
    }
    div_round(share * (m as i128), root as i128)
}

/// `c * m / sqrt(n)`, rounded toward zero: the share `c / sqrt(n)` of `m`,
/// with the root taken to twenty binary places. Directions are made with
/// it, so that none is longer than a unit but for one part in `ROOT_SCALE`.
pub open spec fn spec_over_root(c: int, m: int, n: int) -> int {
    trunc_div(c * m * ROOT_SCALE, sqrt_floor(n * ROOT_SCALE * ROOT_SCALE))
}

/// The share `c / sqrt(n)` of `m`, for a component `c` of a vector of
/// squared length `n`.
pub fn over_root(c: i64, m: i64, n: u128) -> (q: i128)
    requires
        0 < n <= 32_000_000_000_000_000_000_000_000,
        c * c <= n,
        -4_000_000_000_000 <= c <= 4_000_000_000_000,
        0 <= m <= LENGTH_LIMIT,
    ensures
        q == spec_over_root(c as int, m as int, n as int),
        abs(q as int) <= m,
        c >= 0 ==> q >= 0,
        c <= 0 ==> q <= 0,
{
    let scaled: u128 = n * 1_099_511_627_776;
    let root: u64 = isqrt(scaled);
    proof {
        assert(scaled == n * ROOT_SCALE * ROOT_SCALE);
        let s = ROOT_SCALE as int;
        let t = abs(c as int) * s;
        assert(s * s <= scaled);
        lemma_sqrt_floor_dominates(scaled as int, root as int, s);
        assert((c * s) * (c * s) <= scaled) by (nonlinear_arith)
            requires
                c * c <= n,
                scaled == n * s * s,
        ;
        lemma_sqrt_floor_dominates(scaled as int, root as int, c * s);
        assert(abs(c * s) == t);
        lemma_product_bound(c as int, m as int, 4_000_000_000_000, 6_000_000_000_000);
        assert(c * m * s == m * (c * s)) by (nonlinear_arith);
        lemma_scaled_component(m as int, t, root as int);
        assert(abs(c * m * s) == m * t) by (nonlinear_arith)
            requires
                t == abs(c as int) * s,
                s > 0,
                m >= 0,
        ;
        assert(c >= 0 ==> c * m * s >= 0) by (nonlinear_arith)
            requires
                s > 0,
                m >= 0,
        ;
        assert(c <= 0 ==> c * m * s <= 0) by (nonlinear_arith)
            requires
                s > 0,
                m >= 0,
        ;
        lemma_trunc_div_bound(c * m * s, root as int);
    }
    let numerator: i128 = mul_big(mul_wide(c, m), ROOT_SCALE as i128);
    div_trunc(numerator, root as i128)
}

/// Division that rounds toward zero.
pub fn div_trunc(a: i128, b: i128) -> (q: i128)
    requires
        b > 0,
        a != i128::MIN,
    ensures
        q == trunc_div(a as int, b as int),
        abs(q as int) <= abs(a as int),
{
    proof {
        lemma_trunc_div_bound(a as int, b as int);
    }
    if a >= 0 {
        a / b
    } else {
        -((-a) / b)
    }
}

/// Saturates a wide value to `[-limit, limit]`.
pub fn clamp_to(v: i128, limit: i64) -> (r: i64)
    requires
        limit >= 0,
    ensures
        r == clamp(v as int, limit as int),
{
    if v < -(limit as i128) {
        -limit
    } else if v > limit as i128 {
        limit
    } else {
        v as i64
    }
}

/// Integer square root by bisection.
pub fn isqrt(n: u128) -> (r: u64)
    ensures
        is_sqrt_floor(n as int, r as int),
        r == sqrt_floor(n as int),
{
    let mut lo: u128 = 0;
    let mut hi: u128 = 0x1_0000_0000_0000_0000;
    while hi - lo > 1
        invariant
            lo < hi <= 0x1_0000_0000_0000_0000,
            lo * lo <= n,
            n < hi * hi,
        decreases hi - lo,
    {
        let mid: u128 = lo + (hi - lo) / 2;
        proof {
            lemma_product_bound(mid as int, mid as int, 0xffff_ffff_ffff_ffff, 0xffff_ffff_ffff_ffff);
        }
        if mid * mid <= n {
            lo = mid;
        } else {
            hi = mid;
        }
    }
    proof {
        assert(hi == lo + 1);
        lemma_sqrt_floor_is(n as int, lo as int);
    }
    lo as u64
}

} // verus!

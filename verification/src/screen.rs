//! Helpers for the picture: interpolation over time, the radius of the
//! circle round a rectangle, and the aspect ratio of a window.

use vstd::prelude::*;
use crate::fixed::{
    trunc_div, sqrt_floor, lemma_product_bound, lemma_scaled_component, mul_wide, div_trunc,
    isqrt, POINT_LIMIT, WORLD_LIMIT,
};

verus! {

/// The part of `total_time` that has passed, kept within `0..=total_time`.
pub open spec fn spec_elapsed(time_remaining: int, total_time: int) -> int {
    let elapsed = total_time - time_remaining;
    if elapsed < 0 {
        0
    } else if elapsed > total_time {
        total_time
    } else {
        elapsed
    }
}

/// The value on the straight way from `start` to `end` at the time when
/// `time_remaining` of `total_time` is left.
pub open spec fn spec_position_over_time(
    start: int,
    end: int,
    time_remaining: int,
    total_time: int,
) -> int {
    start + trunc_div((end - start) * spec_elapsed(time_remaining, total_time), total_time)
}

/// The value on the straight way from `start` to `end` when `time_remaining`
/// of `total_time` is left; it holds at `start` before and at `end` after.
pub fn get_position_over_time(start: i64, end: i64, time_remaining: i64, total_time: i64) -> (value:
    i64)
    requires
        total_time > 0,
        -WORLD_LIMIT <= start <= WORLD_LIMIT,
        -WORLD_LIMIT <= end <= WORLD_LIMIT,
    ensures
        value == spec_position_over_time(
            start as int,
            end as int,
            time_remaining as int,
            total_time as int,
        ),
        time_remaining >= total_time ==> value == start,
        time_remaining <= 0 ==> value == end,
        start <= end ==> start <= value <= end,
        end <= start ==> end <= value <= start,
{
    let passed: i128 = total_time as i128 - time_remaining as i128;
    let elapsed: i64 = if passed < 0 {
        0
    } else if passed > total_time as i128 {
        total_time
    } else {
        passed as i64
    };
    let span: i64 = end - start;
    proof {
        lemma_scaled_component(span as int, elapsed as int, total_time as int);
        assert(span * 0 == 0);
        assert(trunc_div(span * total_time, total_time as int) == span) by (nonlinear_arith)
            requires
                total_time > 0,
        ;
    }
    let step: i128 = div_trunc(mul_wide(span, elapsed), total_time as i128);
    (start as i128 + step) as i64
}

/// Half the diagonal of a rectangle, rounded down after the square root.
pub open spec fn spec_circle_radius(w: int, h: int) -> int {
    sqrt_floor(w * w + h * h) / 2
}

/// The radius of the circle round a rectangle of sides `w` and `h`.
pub fn circle_radius_for_rect(w: i64, h: i64) -> (radius: i64)
    requires
        -POINT_LIMIT <= w <= POINT_LIMIT,
        -POINT_LIMIT <= h <= POINT_LIMIT,
    ensures
        radius == spec_circle_radius(w as int, h as int),
        radius >= 0,
{
    proof {
        lemma_product_bound(w as int, w as int, 2_000_000_000_000, 2_000_000_000_000);
        lemma_product_bound(h as int, h as int, 2_000_000_000_000, 2_000_000_000_000);
        assert(w * w >= 0) by (nonlinear_arith);
        assert(h * h >= 0) by (nonlinear_arith);
    }
    let n: i128 = mul_wide(w, w) + mul_wide(h, h);
    let root: u64 = isqrt(n as u128);
    (root / 2) as i64
}

/// `d` divides `n`.
pub open spec fn divides(d: int, n: int) -> bool {
    exists|k: int| n == #[trigger] (d * k)
}

/// `g` is the greatest common divisor of `a` and `b`: a common divisor that
/// every common divisor divides.
pub open spec fn is_gcd(g: int, a: int, b: int) -> bool {
    &&& g >= 0
    &&& divides(g, a)
    &&& divides(g, b)
    &&& forall|d: int| divides(d, a) && divides(d, b) ==> #[trigger] divides(d, g)
}

/// One step of Euclid's algorithm keeps the greatest common divisor.
proof fn lemma_gcd_step(g: int, a: int, b: int)
    requires
        b > 0,
        a >= 0,
        is_gcd(g, b, a % b),
    ensures
        is_gcd(g, a, b),
{
    let q = a / b;
    let r = a % b;
    vstd::arithmetic::div_mod::lemma_fundamental_div_mod(a, b);
    let kb = choose|k: int| b == #[trigger] (g * k);
    let kr = choose|k: int| r == #[trigger] (g * k);
    assert(a == g * (kb * q + kr)) by (nonlinear_arith)
        requires
            a == b * q + r,
            b == g * kb,
            r == g * kr,
    ;
    assert(divides(g, a));
    assert forall|d: int| divides(d, a) && divides(d, b) implies #[trigger] divides(d, g) by {
        let ka = choose|k: int| a == #[trigger] (d * k);
        let kd = choose|k: int| b == #[trigger] (d * k);
        assert(r == d * (ka - kd * q)) by (nonlinear_arith)
            requires
                a == b * q + r,
                a == d * ka,
                b == d * kd,
        ;
        assert(divides(d, r));
    }
}

/// The greatest common divisor, by Euclid's algorithm.
pub fn gcd(a: u64, b: u64) -> (g: u64)
    ensures
        is_gcd(g as int, a as int, b as int),
        g == 0 <==> a == 0 && b == 0,
    decreases b,
{
    if b == 0 {
        proof {
            assert(a == a * 1int);
            assert(0int == a * 0int);
            assert(divides(a as int, a as int));
            assert(divides(a as int, 0));
        }
        a
    } else {
        let g = gcd(b, a % b);
        proof {
            lemma_gcd_step(g as int, a as int, b as int);
        }
        g
    }
}

/// The sides of a window in lowest terms.
pub fn find_aspect_ratio(width: u64, height: u64) -> (ratio: (u64, u64))
    requires
        width > 0 || height > 0,
    ensures
        exists|g: int|
            is_gcd(g, width as int, height as int) && g > 0 && ratio.0 == width as int / g
                && ratio.1 == height as int / g,
{
    if width == 800 && height == 600 {
        proof {
            lemma_gcd_of_default_window();
        }
        return (4, 3);
    }
    let g = gcd(width, height);
    (width / g, height / g)
}

/// The greatest common divisor of 800 and 600 is 200.
proof fn lemma_gcd_of_default_window()
    ensures
        is_gcd(200, 800, 600),
{
    assert(800int == 200int * 4);
    assert(600int == 200int * 3);
    assert(divides(200, 800));
    assert(divides(200, 600));
    assert forall|d: int| divides(d, 800) && divides(d, 600) implies #[trigger] divides(d, 200) by {
        let ka = choose|k: int| 800 == #[trigger] (d * k);
        let kb = choose|k: int| 600 == #[trigger] (d * k);
        assert(200 == d * (ka - kb)) by (nonlinear_arith)
            requires
                800 == d * ka,
                600 == d * kb,
        ;
    }
}

} // verus!

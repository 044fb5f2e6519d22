//! Points, vectors and axis-aligned rectangles in fixed point.

use vstd::prelude::*;
use crate::fixed::{
    sqrt_floor, is_sqrt_floor, lemma_product_bound, mul_wide, isqrt, over_root, spec_over_root, UNIT,
    POINT_LIMIT, ROOT_SCALE,
};

verus! {

/// A point or a vector, in thousandths of a world unit.
#[derive(Clone, Copy, Debug, PartialEq, Eq, Structural)]
pub struct Vec2 {
    pub x: i64,
    pub y: i64,
}

/// An axis-aligned rectangle given by its top-left corner and its extent.
#[derive(Clone, Copy, Debug, PartialEq, Eq, Structural)]
pub struct Rect {
    pub x: i64,
    pub y: i64,
    pub width: i64,
    pub height: i64,
}

impl Vec2 {
    /// Both coordinates lie in `[-limit, limit]`.
    pub open spec fn within(self, limit: int) -> bool {
        -limit <= self.x <= limit && -limit <= self.y <= limit
    }

    pub fn new(x: i64, y: i64) -> (v: Vec2)
        ensures
            v == (Vec2 { x, y }),
    {
        Vec2 { x, y }
    }

    pub fn zero() -> (v: Vec2)
        ensures
            v == (Vec2 { x: 0, y: 0 }),
    {
        Vec2 { x: 0, y: 0 }
    }
}

/// Membership in a rectangle, bounds included.
pub open spec fn spec_point_in_rect(point: Vec2, rect: Rect) -> bool {
    &&& point.x >= rect.x
    &&& point.x <= rect.x + rect.width
    &&& point.y >= rect.y
    &&& point.y <= rect.y + rect.height
}

/// Whether `point` lies in `rect`, bounds included.
pub fn point_in_rect(point: Vec2, rect: Rect) -> (inside: bool)
    ensures
        inside == spec_point_in_rect(point, rect),
{
    point.x >= rect.x && point.x as i128 <= rect.x as i128 + rect.width as i128 && point.y
        >= rect.y && point.y as i128 <= rect.y as i128 + rect.height as i128
}

/// Squared Euclidean distance.
pub open spec fn dist_sq(a: Vec2, b: Vec2) -> int {
    (a.x - b.x) * (a.x - b.x) + (a.y - b.y) * (a.y - b.y)
}

/// Euclidean distance, rounded down.
pub open spec fn spec_distance(a: Vec2, b: Vec2) -> int {
    sqrt_floor(dist_sq(a, b))
}

/// Squared distances of points within `POINT_LIMIT` are bounded.
pub proof fn lemma_dist_sq_bound(a: Vec2, b: Vec2)
    requires
        a.within(POINT_LIMIT as int),
        b.within(POINT_LIMIT as int),
    ensures
        0 <= (a.x - b.x) * (a.x - b.x) <= 16_000_000_000_000_000_000_000_000,
        0 <= (a.y - b.y) * (a.y - b.y) <= 16_000_000_000_000_000_000_000_000,
        0 <= dist_sq(a, b) <= 32_000_000_000_000_000_000_000_000,
{
    lemma_product_bound(a.x - b.x, a.x - b.x, 4_000_000_000_000, 4_000_000_000_000);
    lemma_product_bound(a.y - b.y, a.y - b.y, 4_000_000_000_000, 4_000_000_000_000);
    assert((a.x - b.x) * (a.x - b.x) >= 0) by (nonlinear_arith);
    assert((a.y - b.y) * (a.y - b.y) >= 0) by (nonlinear_arith);
}

/// Squared distance between two points.
pub fn distance_squared(a: Vec2, b: Vec2) -> (d: u128)
    requires
        a.within(POINT_LIMIT as int),
        b.within(POINT_LIMIT as int),
    ensures
        d == dist_sq(a, b),
{
    proof {
        lemma_dist_sq_bound(a, b);
    }
    let dx: i64 = a.x - b.x;
    let dy: i64 = a.y - b.y;
    let sx: i128 = mul_wide(dx, dx);
    let sy: i128 = mul_wide(dy, dy);
    (sx + sy) as u128
}

/// Distance between two points, rounded down.
pub fn distance(a: Vec2, b: Vec2) -> (d: i64)
    requires
        a.within(POINT_LIMIT as int),
        b.within(POINT_LIMIT as int),
    ensures
        d == spec_distance(a, b),
        0 <= d <= 6_000_000_000_000,
        is_sqrt_floor(dist_sq(a, b), d as int),
{
    let n: u128 = distance_squared(a, b);
    let r: u64 = isqrt(n);
    proof {
        lemma_dist_sq_bound(a, b);
        if r > 6_000_000_000_000 {
            assert(r * r > 32_000_000_000_000_000_000_000_000) by (nonlinear_arith)
                requires
                    r > 6_000_000_000_000,
            ;
        }
    }
    r as i64
}

/// The unit vector along `d` in fixed point, each component rounded toward
/// zero; `(UNIT, 0)` when `d` is the zero vector.
pub open spec fn spec_normalized(d: Vec2) -> Vec2 {
    let n = d.x * d.x + d.y * d.y;
    if d.x == 0 && d.y == 0 {
        Vec2 { x: UNIT, y: 0 }
    } else {
        Vec2 {
            x: spec_over_root(d.x as int, UNIT as int, n) as i64,
            y: spec_over_root(d.y as int, UNIT as int, n) as i64,
        }
    }
}

/// The vector `(x, y)` in the fixed-point form of directions is no longer
/// than a unit vector, but for one part in `ROOT_SCALE`.
pub open spec fn is_short(x: int, y: int) -> bool {
    (x * x + y * y) * (ROOT_SCALE * ROOT_SCALE) <= (UNIT * UNIT) * ((ROOT_SCALE + 1) * (ROOT_SCALE
        + 1))
}

/// Two different points lie at a positive squared distance.
pub proof fn lemma_dist_sq_positive(a: Vec2, b: Vec2)
    ensures
        dist_sq(a, b) >= 0,
        dist_sq(a, b) == 0 <==> a == b,
{
    let dx = a.x - b.x;
    let dy = a.y - b.y;
    assert(dx * dx >= 0 && (dx != 0 ==> dx * dx > 0)) by (nonlinear_arith);
    assert(dy * dy >= 0 && (dy != 0 ==> dy * dy > 0)) by (nonlinear_arith);
    assert(dx == 0 ==> dx * dx == 0);
    assert(dy == 0 ==> dy * dy == 0);
}

/// Unit vector from `from` toward `to`.
pub fn direction_between(from: Vec2, to: Vec2) -> (dir: Vec2)
    requires
        from.within(POINT_LIMIT as int),
        to.within(POINT_LIMIT as int),
    ensures
        dir == spec_normalized(Vec2 { x: (to.x - from.x) as i64, y: (to.y - from.y) as i64 }),
        dir.within(UNIT as int),
        is_short(dir.x as int, dir.y as int),
{
    let dx: i64 = to.x - from.x;
    let dy: i64 = to.y - from.y;
    let n: u128 = distance_squared(to, from);
    proof {
        lemma_dist_sq_positive(to, from);
    }
    if dx != 0 || dy != 0 {
        proof {
            lemma_dist_sq_bound(to, from);
            assert(dy * dy >= 0) by (nonlinear_arith);
            assert(dx * dx >= 0) by (nonlinear_arith);
            crate::laws::lemma_unit_share(dx as int, dy as int, n as int);
        }
        let x: i128 = over_root(dx, UNIT, n);
        let y: i128 = over_root(dy, UNIT, n);
        Vec2 { x: x as i64, y: y as i64 }
    } else {
        proof {
            assert(is_short(UNIT as int, 0)) by (nonlinear_arith)
                requires
                    UNIT == 1_000_000,
                    ROOT_SCALE == 1_048_576,
            ;
        }
        Vec2 { x: UNIT, y: 0 }
    }
}

} // verus!

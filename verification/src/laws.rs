//! Laws of the simulation, stated over the models that the contracts use.

use vstd::prelude::*;
use crate::fixed::{
    abs, clamp, trunc_div, round_div, root_scale, sqrt_floor, spec_nearest_over_root,
    spec_over_root, lemma_product_bound, lemma_round_div, lemma_scaled_component,
    lemma_sqrt_floor_dominates, lemma_sqrt_floor_exists, lemma_trunc_div_bound, LENGTH_LIMIT,
    POINT_LIMIT,
    ROOT_SCALE, SPEED_LIMIT, UNIT, WORLD_LIMIT,
};
use crate::geometry::{
    Rect, Vec2, dist_sq, is_short, lemma_dist_sq_positive, spec_distance, spec_point_in_rect,
};
use crate::grappler::{
    Grappler, GrapplerState, first_hit_object, first_hit_sample, rope_end, sample_count,
    sample_point, spec_collision_point, spec_snap_to_corner, spec_travel, CORNER_SNAP_DISTANCE,
    GRAPPLE_SPEED, ROPE_LENGTH, SAMPLE_STEP,
};
use crate::layergen::{layers_from, BUFFER_ABOVE, BUFFER_BELOW, LAYER_GAP};
use crate::object::{Object, all_wf};
use crate::player::{Axis, InputEvents, Player, PlayerTool, is_attached, spec_resolution_axis};

verus! {

/// The rope of a well-formed hook is never negative, is fully in while the
/// hook is idle, and is no longer than the longest rope while the hook
/// extends or retracts.
pub proof fn law_rope_length_bounds(g: Grappler)
    requires
        g.wf(),
    ensures
        0 <= g.length,
        g.state == GrapplerState::Idle ==> g.length == 0,
        !is_attached(g.state) ==> g.length <= ROPE_LENGTH,
{
}

/// A tick of the hook that does not attach it leaves the rope no longer than
/// the longest rope; a retracting hook that stays out has rope left, and so
/// has an extending hook after a tick of positive duration.
pub proof fn law_hook_tick_length(g: Grappler, dt: u32, objects: Seq<Object>)
    requires
        g.wf(),
        !is_attached(g.state),
    ensures
        g.spec_update(dt, objects).state != GrapplerState::Grappled ==> 0 <= g.spec_update(
            dt,
            objects,
        ).length <= ROPE_LENGTH,
        g.spec_update(dt, objects).state == GrapplerState::Idle ==> g.spec_update(dt, objects).length
            == 0,
        g.spec_update(dt, objects).state == GrapplerState::Retracting ==> g.spec_update(
            dt,
            objects,
        ).length > 0,
        dt > 0 && g.spec_update(dt, objects).state == GrapplerState::Grappling ==> g.spec_update(
            dt,
            objects,
        ).length > 0,
{
    let step = spec_travel(1_200_000, dt as int);
    assert(step == (1_200_000 * dt) / 1_000_000);
    assert(0 <= step);
    assert(dt > 0 ==> step >= 1);
}

/// A hit found from sample `i` on is one of the samples.
proof fn lemma_hit_is_sample(start: Vec2, end: Vec2, rect: Rect, i: int)
    requires
        0 <= i,
        first_hit_sample(start, end, rect, i) is Some,
    ensures
        exists|k: int|
            i <= k <= sample_count(spec_distance(end, start)) && first_hit_sample(
                start,
                end,
                rect,
                i,
            )->0 == #[trigger] sample_point(start, end, k),
    decreases sample_count(spec_distance(end, start)) - i + 1,
{
    if i <= sample_count(spec_distance(end, start)) {
        if spec_point_in_rect(sample_point(start, end, i), rect) {
            assert(first_hit_sample(start, end, rect, i)->0 == sample_point(start, end, i));
        } else {
            lemma_hit_is_sample(start, end, rect, i + 1);
        }
    }
}

/// A hit found from obstacle `j` on is a sample, snapped to a corner of the
/// obstacle it lies in.
proof fn lemma_hit_is_snapped_sample(start: Vec2, end: Vec2, objects: Seq<Object>, j: int)
    requires
        0 <= j,
        first_hit_object(start, end, objects, j) is Some,
    ensures
        exists|m: int, k: int|
            j <= m < objects.len() && 0 <= k <= sample_count(spec_distance(end, start))
                && first_hit_object(start, end, objects, j)->0 == #[trigger] spec_snap_to_corner(
                sample_point(start, end, k),
                objects[m].rect(),
            ),
    decreases objects.len() - j,
{
    if j < objects.len() {
        match first_hit_sample(start, end, objects[j].rect(), 0) {
            Some(q) => {
                lemma_hit_is_sample(start, end, objects[j].rect(), 0);
                let k = choose|k: int|
                    0 <= k <= sample_count(spec_distance(end, start)) && q
                        == #[trigger] sample_point(start, end, k);
                assert(first_hit_object(start, end, objects, j)->0 == spec_snap_to_corner(
                    sample_point(start, end, k),
                    objects[j].rect(),
                ));
            },
            None => {
                lemma_hit_is_snapped_sample(start, end, objects, j + 1);
            },
        }
    }
}

/// The sum of a vector shorter than `a` and one no longer than `b` is
/// shorter than `a + b`.
proof fn lemma_triangle(ox: int, oy: int, sx: int, sy: int, a: int, b: int)
    requires
        0 < a,
        0 <= b,
        ox * ox + oy * oy < a * a,
        sx * sx + sy * sy <= b * b,
    ensures
        (ox + sx) * (ox + sx) + (oy + sy) * (oy + sy) < (a + b) * (a + b),
{
    let o2 = ox * ox + oy * oy;
    let s2 = sx * sx + sy * sy;
    let dot = ox * sx + oy * sy;
    let cross = ox * sy - oy * sx;
    let xx = ox * sx;
    let yy = oy * sy;
    let xy = ox * sy;
    let yx = oy * sx;
    assert((ox * ox) * (sx * sx) == xx * xx) by (nonlinear_arith)
        requires
            xx == ox * sx,
    ;
    assert((oy * oy) * (sy * sy) == yy * yy) by (nonlinear_arith)
        requires
            yy == oy * sy,
    ;
    assert((ox * ox) * (sy * sy) == xy * xy) by (nonlinear_arith)
        requires
            xy == ox * sy,
    ;
    assert((oy * oy) * (sx * sx) == yx * yx) by (nonlinear_arith)
        requires
            yx == oy * sx,
    ;
    assert(xx * yy == xy * yx) by (nonlinear_arith)
        requires
            xx == ox * sx,
            yy == oy * sy,
            xy == ox * sy,
            yx == oy * sx,
    ;
    assert(o2 * s2 == xx * xx + xy * xy + yx * yx + yy * yy) by (nonlinear_arith)
        requires
            o2 == ox * ox + oy * oy,
            s2 == sx * sx + sy * sy,
            (ox * ox) * (sx * sx) == xx * xx,
            (oy * oy) * (sy * sy) == yy * yy,
            (ox * ox) * (sy * sy) == xy * xy,
            (oy * oy) * (sx * sx) == yx * yx,
    ;
    assert(dot * dot + cross * cross == xx * xx + xy * xy + yx * yx + yy * yy)
        by (nonlinear_arith)
        requires
            dot == xx + yy,
            cross == xy - yx,
            xx * yy == xy * yx,
    ;
    assert(cross * cross >= 0) by (nonlinear_arith);
    assert(o2 >= 0 && s2 >= 0) by (nonlinear_arith)
        requires
            o2 == ox * ox + oy * oy,
            s2 == sx * sx + sy * sy,
    ;
    assert(o2 * s2 <= (a * a) * (b * b)) by (nonlinear_arith)
        requires
            0 <= o2 < a * a,
            0 <= s2 <= b * b,
    ;
    assert((a * a) * (b * b) == (a * b) * (a * b)) by (nonlinear_arith);
    if dot > a * b {
        assert(dot * dot > (a * b) * (a * b)) by (nonlinear_arith)
            requires
                dot > a * b,
                a * b >= 0,
        ;
    }
    assert(a * b >= 0) by (nonlinear_arith)
        requires
            0 < a,
            0 <= b,
    ;
    assert((ox + sx) * (ox + sx) + (oy + sy) * (oy + sy) == o2 + 2 * dot + s2)
        by (nonlinear_arith)
        requires
            o2 == ox * ox + oy * oy,
            s2 == sx * sx + sy * sy,
            dot == ox * sx + oy * sy,
    ;
    assert((a + b) * (a + b) == a * a + 2 * (a * b) + b * b) by (nonlinear_arith);
}

/// Every sample of the cast along an extended rope of `reach` lies less
/// than `reach + 1` from the hook's owner.
proof fn lemma_sample_within_reach(g: Grappler, reach: int, k: int)
    requires
        g.wf(),
        0 <= reach < ROOT_SCALE,
        rope_end(g.position, g.grapple_direction, reach) != g.position,
        0 <= k <= sample_count(
            spec_distance(rope_end(g.position, g.grapple_direction, reach), g.position),
        ),
    ensures
        dist_sq(
            sample_point(g.position, rope_end(g.position, g.grapple_direction, reach), k),
            g.position,
        ) < (reach + 1) * (reach + 1),
        sample_point(g.position, rope_end(g.position, g.grapple_direction, reach), k).within(
            POINT_LIMIT as int,
        ),
{
    let start = g.position;
    let dir = g.grapple_direction;
    let end = rope_end(start, dir, reach);
    let s = ROOT_SCALE as int;
    let u = UNIT as int;
    let ex = trunc_div(dir.x * reach, u);
    let ey = trunc_div(dir.y * reach, u);
    lemma_offset_component(dir.x as int, reach, u);
    lemma_offset_component(dir.y as int, reach, u);
    lemma_trunc_div_bound(dir.x * reach, u);
    lemma_trunc_div_bound(dir.y * reach, u);
    lemma_product_bound(dir.x as int, reach, u, s);
    lemma_product_bound(dir.y as int, reach, u, s);
    assert(end.x - start.x == ex && end.y - start.y == ey);
    let e2 = ex * ex + ey * ey;
    let d2 = dir.x * dir.x + dir.y * dir.y;
    let r2 = reach * reach;
    // u^2 e2 <= d2 r2 and d2 s^2 <= u^2 (s+1)^2, so e2 s^2 <= (s+1)^2 r2.
    assert((u * u) * e2 <= d2 * r2) by (nonlinear_arith)
        requires
            (u * u) * (ex * ex) <= (dir.x * dir.x) * r2,
            (u * u) * (ey * ey) <= (dir.y * dir.y) * r2,
            e2 == ex * ex + ey * ey,
            d2 == dir.x * dir.x + dir.y * dir.y,
    ;
    assert(r2 >= 0 && e2 >= 0) by (nonlinear_arith)
        requires
            r2 == reach * reach,
            e2 == ex * ex + ey * ey,
    ;
    let sp = (s + 1) * (s + 1);
    assert(d2 * (s * s) <= (u * u) * sp);
    assert((u * u) * (e2 * (s * s)) <= (u * u) * (sp * r2)) by (nonlinear_arith)
        requires
            (u * u) * e2 <= d2 * r2,
            d2 * (s * s) <= (u * u) * sp,
            r2 >= 0,
            s * s >= 0,
    ;
    assert(e2 * (s * s) <= sp * r2) by (nonlinear_arith)
        requires
            (u * u) * (e2 * (s * s)) <= (u * u) * (sp * r2),
            u * u > 0,
    ;
    // (s+1) reach < (reach+1) s because reach < s.
    let a = reach + 1;
    assert(sp * r2 < (a * a) * (s * s)) by (nonlinear_arith)
        requires
            0 <= reach < s,
            a == reach + 1,
            sp == (s + 1) * (s + 1),
            r2 == reach * reach,
    ;
    assert(e2 < a * a) by (nonlinear_arith)
        requires
            e2 * (s * s) < (a * a) * (s * s),
            s * s > 0,
    ;
    // A sample lies between the owner and the rope's end.
    lemma_dist_sq_positive(end, start);
    let n = dist_sq(end, start);
    lemma_sqrt_floor_exists(n);
    let len = spec_distance(end, start);
    if len == 0 {
        assert((len + 1) * (len + 1) == 1) by (nonlinear_arith)
            requires
                len == 0,
        ;
    }
    let t = k * SAMPLE_STEP;
    assert(0 <= t <= len) by (nonlinear_arith)
        requires
            0 <= k <= len / (SAMPLE_STEP as int),
            t == k * SAMPLE_STEP,
            SAMPLE_STEP == 5_000,
            len > 0,
    ;
    lemma_scaled_component(ex, t, len);
    lemma_scaled_component(ey, t, len);
    let ox = trunc_div(ex * t, len);
    let oy = trunc_div(ey * t, len);
    let q = sample_point(start, end, k);
    assert(q.x - start.x == ox && q.y - start.y == oy);
    assert(ox * ox <= ex * ex) by (nonlinear_arith)
        requires
            abs(ox) <= abs(ex),
    ;
    assert(oy * oy <= ey * ey) by (nonlinear_arith)
        requires
            abs(oy) <= abs(ey),
    ;
}

/// A hook that attaches has no more rope out than it had extended to, plus
/// the snap radius: the overshoot of the longest rope is at most what the
/// hook travels in one tick and the snap radius.
pub proof fn law_attached_rope_length(g: Grappler, dt: u32, objects: Seq<Object>)
    requires
        g.wf(),
        all_wf(objects),
        g.state == GrapplerState::Grappling,
        g.length + spec_travel(GRAPPLE_SPEED as int, dt as int) < ROOT_SCALE,
        g.spec_update(dt, objects).state == GrapplerState::Grappled,
    ensures
        g.spec_update(dt, objects).length <= g.length + spec_travel(GRAPPLE_SPEED as int, dt as int)
            + CORNER_SNAP_DISTANCE,
        g.spec_update(dt, objects).length <= ROPE_LENGTH + spec_travel(
            GRAPPLE_SPEED as int,
            dt as int,
        ) + CORNER_SNAP_DISTANCE,
{
    let step = spec_travel(GRAPPLE_SPEED as int, dt as int);
    assert(step == (1_200_000 * dt) / 1_000_000);
    let reach = g.length + step;
    let start = g.position;
    let end = rope_end(start, g.grapple_direction, reach);
    let hit = spec_collision_point(start, end, objects);
    assert(hit is Some);
    let p = hit->0;
    lemma_hit_is_snapped_sample(start, end, objects, 0);
    let (m, k) = choose|m: int, k: int|
        0 <= m < objects.len() && 0 <= k <= sample_count(spec_distance(end, start)) && p
            == #[trigger] spec_snap_to_corner(sample_point(start, end, k), objects[m].rect());
    let q = sample_point(start, end, k);
    lemma_sample_within_reach(g, reach, k);
    let rect = objects[m].rect();
    assert(objects[m].wf());
    let a = reach + 1;
    let b = CORNER_SNAP_DISTANCE as int;
    let ox = q.x - start.x;
    let oy = q.y - start.y;
    let sx = p.x - q.x;
    let sy = p.y - q.y;
    assert(sx * sx + sy * sy <= b * b) by {
        if p == q {
            assert(sx * sx + sy * sy == 0) by (nonlinear_arith)
                requires
                    sx == 0,
                    sy == 0,
            ;
            assert(b * b >= 0) by (nonlinear_arith);
        } else {
            assert(dist_sq(q, p) <= b * b);
            assert(dist_sq(q, p) == sx * sx + sy * sy) by (nonlinear_arith)
                requires
                    sx == p.x - q.x,
                    sy == p.y - q.y,
                    dist_sq(q, p) == (q.x - p.x) * (q.x - p.x) + (q.y - p.y) * (q.y - p.y),
            ;
        }
    }
    lemma_triangle(ox, oy, sx, sy, a, b);
    let n = dist_sq(p, start);
    assert(n == (ox + sx) * (ox + sx) + (oy + sy) * (oy + sy));
    lemma_dist_sq_positive(p, start);
    lemma_sqrt_floor_exists(n);
    let rope = spec_distance(p, start);
    if rope >= a + b {
        assert(rope * rope >= (a + b) * (a + b)) by (nonlinear_arith)
            requires
                rope >= a + b,
                a + b >= 0,
        ;
    }
    assert(g.spec_update(dt, objects).length == rope);
}

/// A tick of the body never lets rope out.
pub proof fn law_body_tick_keeps_rope(p: Player, dt: u32, is_respawning: bool)
    requires
        p.wf(),
    ensures
        0 <= p.spec_update(dt, is_respawning).grappler.length <= p.grappler.length,
        p.spec_update(dt, is_respawning).grappler.state == GrapplerState::Idle && !is_respawning
            && p.grappler.state == GrapplerState::Pulling ==> p.spec_update(
            dt,
            is_respawning,
        ).grappler.length == 0,
        !is_respawning && p.spec_update(dt, is_respawning).grappler.state == GrapplerState::Pulling
            ==> p.spec_update(dt, is_respawning).grappler.length > 0,
{
    let step = spec_travel(600_000, dt as int);
    assert(step == (600_000 * dt) / 1_000_000);
    assert(0 <= step);
}

/// A tick of no duration moves nothing: position and velocity stay as they
/// are, as long as no rope holds the player.
pub proof fn law_zero_tick(p: Player, is_respawning: bool)
    requires
        p.wf(),
        is_respawning || !is_attached(p.grappler.state),
    ensures
        p.spec_update(0, is_respawning).position == p.position,
        p.spec_update(0, is_respawning).velocity == p.velocity,
{
    assert(spec_travel(500_000, 0) == 0);
    assert(spec_travel(p.velocity.x as int, 0) == 0) by {
        assert(p.velocity.x * 0 == 0);
    }
    assert(spec_travel(p.velocity.y as int, 0) == 0) by {
        assert(p.velocity.y * 0 == 0);
    }
}

/// One component of the constrained offset `o = r * length / dist`, rounded
/// toward zero: its magnitude times `dist` is at most `|r| * length`, and
/// short of it by less than `dist`.
pub proof fn lemma_offset_component(r: int, length: int, dist: int)
    requires
        dist > 0,
        length >= 0,
    ensures
        ({
            let o = trunc_div(r * length, dist);
            &&& (dist * dist) * (o * o) <= (r * r) * (length * length)
            &&& (r * r) * (length * length) < (dist * dist) * ((abs(o) + 1) * (abs(o) + 1))
        }),
{
    let o = trunc_div(r * length, dist);
    let m = abs(r);
    let a = m * length;
    let q = a / dist;
    assert(a >= 0) by (nonlinear_arith)
        requires
            a == m * length,
            m >= 0,
            length >= 0,
    ;
    assert(abs(r * length) == a) by (nonlinear_arith)
        requires
            a == m * length,
            m == abs(r),
            length >= 0,
    ;
    assert(abs(o) == q);
    assert(q * dist <= a < (q + 1) * dist && q >= 0) by (nonlinear_arith)
        requires
            q == a / dist,
            a >= 0,
            dist > 0,
    ;
    assert((q * dist) * (q * dist) <= a * a) by (nonlinear_arith)
        requires
            0 <= q * dist <= a,
    ;
    assert(a * a < ((q + 1) * dist) * ((q + 1) * dist)) by (nonlinear_arith)
        requires
            0 <= a < (q + 1) * dist,
    ;
    assert((q * dist) * (q * dist) == (dist * dist) * (q * q)) by (nonlinear_arith);
    assert(((q + 1) * dist) * ((q + 1) * dist) == (dist * dist) * ((q + 1) * (q + 1)))
        by (nonlinear_arith);
    assert(a * a == (r * r) * (length * length)) by (nonlinear_arith)
        requires
            a == m * length,
            m == r || m == -r,
    ;
    assert(o * o == q * q) by (nonlinear_arith)
        requires
            o == q || o == -q,
    ;
}

/// A vector `(rx, ry)` rescaled to the length `m` has, up to rounding, that
/// length: it is less than a thousandth short of `m` in each coordinate, and
/// longer than `m` by less than one part in `ROOT_SCALE`.
pub proof fn law_rescaled_length(rx: int, ry: int, m: int)
    requires
        rx != 0 || ry != 0,
        m >= 0,
    ensures
        ({
            let n = rx * rx + ry * ry;
            let root = sqrt_floor(n * ROOT_SCALE * ROOT_SCALE);
            let ox = spec_over_root(rx, m, n);
            let oy = spec_over_root(ry, m, n);
            &&& root >= ROOT_SCALE
            &&& (root * root) * (ox * ox + oy * oy) <= ((root + 1) * (root + 1)) * (m * m)
            &&& m * m < (abs(ox) + 1) * (abs(ox) + 1) + (abs(oy) + 1) * (abs(oy) + 1)
        }),
{
    let n = rx * rx + ry * ry;
    let s = ROOT_SCALE as int;
    let scaled = n * s * s;
    let reach = m * s;
    assert(n >= 1) by (nonlinear_arith)
        requires
            n == rx * rx + ry * ry,
            rx != 0 || ry != 0,
    ;
    assert(scaled >= s * s);
    lemma_sqrt_floor_exists(scaled);
    let root = sqrt_floor(scaled);
    lemma_sqrt_floor_dominates(scaled, root, s);
    let ox = spec_over_root(rx, m, n);
    let oy = spec_over_root(ry, m, n);
    assert(rx * m * s == rx * reach) by (nonlinear_arith)
        requires
            reach == m * s,
    ;
    assert(ry * m * s == ry * reach) by (nonlinear_arith)
        requires
            reach == m * s,
    ;
    assert(ox == trunc_div(rx * reach, root));
    assert(oy == trunc_div(ry * reach, root));
    lemma_offset_component(rx, reach, root);
    lemma_offset_component(ry, reach, root);
    let l2 = m * m;
    let r2 = root * root;
    let up = (root + 1) * (root + 1);
    let m2 = reach * reach;
    assert(r2 * (ox * ox + oy * oy) == r2 * (ox * ox) + r2 * (oy * oy)) by (nonlinear_arith);
    assert(n * m2 == (rx * rx) * m2 + (ry * ry) * m2) by (nonlinear_arith)
        requires
            n == rx * rx + ry * ry,
    ;
    assert(n * m2 == scaled * l2) by (nonlinear_arith)
        requires
            scaled == n * s * s,
            m2 == (m * s) * (m * s),
            l2 == m * m,
    ;
    let sx = (abs(ox) + 1) * (abs(ox) + 1);
    let sy = (abs(oy) + 1) * (abs(oy) + 1);
    assert(r2 * (sx + sy) == r2 * sx + r2 * sy) by (nonlinear_arith);
    assert(l2 >= 0) by (nonlinear_arith)
        requires
            l2 == m * m,
    ;
    assert(r2 * l2 <= scaled * l2 <= up * l2) by (nonlinear_arith)
        requires
            r2 <= scaled < up,
            l2 >= 0,
    ;
    assert(r2 > 0) by (nonlinear_arith)
        requires
            root > 0,
            r2 == root * root,
    ;
    assert(l2 < sx + sy) by (nonlinear_arith)
        requires
            r2 * l2 < r2 * (sx + sy),
            r2 > 0,
    ;
}

/// The square of a product of two vectors is at most the product of their
/// squares.
proof fn lemma_cauchy(ox: int, oy: int, sx: int, sy: int)
    ensures
        (ox * sx + oy * sy) * (ox * sx + oy * sy) <= (ox * ox + oy * oy) * (sx * sx + sy * sy),
{
    let o2 = ox * ox + oy * oy;
    let s2 = sx * sx + sy * sy;
    let dot = ox * sx + oy * sy;
    let cross = ox * sy - oy * sx;
    let xx = ox * sx;
    let yy = oy * sy;
    let xy = ox * sy;
    let yx = oy * sx;
    assert((ox * ox) * (sx * sx) == xx * xx) by (nonlinear_arith)
        requires
            xx == ox * sx,
    ;
    assert((oy * oy) * (sy * sy) == yy * yy) by (nonlinear_arith)
        requires
            yy == oy * sy,
    ;
    assert((ox * ox) * (sy * sy) == xy * xy) by (nonlinear_arith)
        requires
            xy == ox * sy,
    ;
    assert((oy * oy) * (sx * sx) == yx * yx) by (nonlinear_arith)
        requires
            yx == oy * sx,
    ;
    assert(xx * yy == xy * yx) by (nonlinear_arith)
        requires
            xx == ox * sx,
            yy == oy * sy,
            xy == ox * sy,
            yx == oy * sx,
    ;
    assert(o2 * s2 == xx * xx + xy * xy + yx * yx + yy * yy) by (nonlinear_arith)
        requires
            o2 == ox * ox + oy * oy,
            s2 == sx * sx + sy * sy,
            (ox * ox) * (sx * sx) == xx * xx,
            (oy * oy) * (sy * sy) == yy * yy,
            (ox * ox) * (sy * sy) == xy * xy,
            (oy * oy) * (sx * sx) == yx * yx,
    ;
    assert(dot * dot + cross * cross == xx * xx + xy * xy + yx * yx + yy * yy)
        by (nonlinear_arith)
        requires
            dot == xx + yy,
            cross == xy - yx,
            xx * yy == xy * yx,
    ;
    assert(cross * cross >= 0) by (nonlinear_arith);
}

/// A vector of two coordinates that each stay within `2 * r` in magnitude
/// is no longer than `3 * r`.
proof fn lemma_rounding_error(vx: int, vy: int, r: int)
    requires
        r >= 0,
        abs(vx) <= 2 * r,
        abs(vy) <= 2 * r,
    ensures
        vx * vx + vy * vy <= (3 * r) * (3 * r),
        (-vx) * (-vx) + (-vy) * (-vy) <= (3 * r) * (3 * r),
{
    assert(vx * vx <= 4 * (r * r)) by (nonlinear_arith)
        requires
            abs(vx) <= 2 * r,
    ;
    assert(vy * vy <= 4 * (r * r)) by (nonlinear_arith)
        requires
            abs(vy) <= 2 * r,
    ;
    assert((3 * r) * (3 * r) == 9 * (r * r)) by (nonlinear_arith);
    assert(r * r >= 0) by (nonlinear_arith);
    assert((-vx) * (-vx) == vx * vx && (-vy) * (-vy) == vy * vy) by (nonlinear_arith);
}

/// A vector `(rx, ry)` rescaled to the length `m` of a rope has that length
/// to within one thousandth.
pub proof fn law_rope_share_length(rx: int, ry: int, m: int)
    requires
        rx != 0 || ry != 0,
        0 <= m <= LENGTH_LIMIT,
    ensures
        ({
            let n = rx * rx + ry * ry;
            let ox = spec_nearest_over_root(rx, m, n);
            let oy = spec_nearest_over_root(ry, m, n);
            &&& ox * ox + oy * oy < (m + 1) * (m + 1)
            &&& m >= 1 ==> (m - 1) * (m - 1) <= ox * ox + oy * oy
        }),
{
    let n = rx * rx + ry * ry;
    assert(n >= 1) by (nonlinear_arith)
        requires
            n == rx * rx + ry * ry,
            rx != 0 || ry != 0,
    ;
    let s = root_scale(n);
    let scaled = n * s * s;
    let w: int = if n < 0x10_0000_0000 {
        0x4000_0000_0000
    } else if n < 0x1000_0000_0000_0000 {
        0x10_0000_0000_0000
    } else {
        0x8_0000_0000_0000
    };
    assert(w * w <= scaled);
    lemma_sqrt_floor_exists(scaled);
    let r = sqrt_floor(scaled);
    lemma_sqrt_floor_dominates(scaled, r, w);
    assert(r >= 4 * m && r > 0);
    let ax = rx * s * m;
    let ay = ry * s * m;
    let ox = round_div(ax, r);
    let oy = round_div(ay, r);
    assert(ox == spec_nearest_over_root(rx, m, n));
    assert(oy == spec_nearest_over_root(ry, m, n));
    lemma_round_div(ax, r);
    lemma_round_div(ay, r);
    let d = ox * ox + oy * oy;
    assert(d >= 0) by (nonlinear_arith)
        requires
            d == ox * ox + oy * oy,
    ;
    if m == 0 {
        assert(ax == 0 && ay == 0) by (nonlinear_arith)
            requires
                ax == rx * s * m,
                ay == ry * s * m,
                m == 0,
        ;
        assert(d == 0) by (nonlinear_arith)
            requires
                d == ox * ox + oy * oy,
                ox == 0,
                oy == 0,
        ;
        assert((m + 1) * (m + 1) == 1) by (nonlinear_arith)
            requires
                m == 0,
        ;
    } else {
        let wx = 4 * (r * ox);
        let wy = 4 * (r * oy);
        let ux = 4 * ax;
        let uy = 4 * ay;
        let vx = wx - ux;
        let vy = wy - uy;
        lemma_rounding_error(vx, vy, r);
        let u2 = ux * ux + uy * uy;
        let w2 = wx * wx + wy * wy;
        let m2 = m * m;
        let r2 = r * r;
        assert(m2 >= 1 && r2 >= 1) by (nonlinear_arith)
            requires
                m2 == m * m,
                r2 == r * r,
                m >= 1,
                r >= 1,
        ;
        let k = s * m;
        let k2 = k * k;
        assert(ax == rx * k && ay == ry * k) by (nonlinear_arith)
            requires
                ax == rx * s * m,
                ay == ry * s * m,
                k == s * m,
        ;
        assert(ax * ax == (rx * rx) * k2) by (nonlinear_arith)
            requires
                ax == rx * k,
                k2 == k * k,
        ;
        assert(ay * ay == (ry * ry) * k2) by (nonlinear_arith)
            requires
                ay == ry * k,
                k2 == k * k,
        ;
        assert(k2 == (s * s) * m2) by (nonlinear_arith)
            requires
                k2 == (s * m) * (s * m),
                m2 == m * m,
        ;
        assert(scaled == n * (s * s)) by (nonlinear_arith)
            requires
                scaled == n * s * s,
        ;
        assert(ax * ax + ay * ay == n * k2) by (nonlinear_arith)
            requires
                ax * ax == (rx * rx) * k2,
                ay * ay == (ry * ry) * k2,
                n == rx * rx + ry * ry,
        ;
        assert(n * k2 == scaled * m2) by (nonlinear_arith)
            requires
                k2 == (s * s) * m2,
                scaled == n * (s * s),
        ;
        assert(u2 == 16 * (scaled * m2)) by (nonlinear_arith)
            requires
                u2 == (4 * ax) * (4 * ax) + (4 * ay) * (4 * ay),
                ax * ax + ay * ay == scaled * m2,
        ;
        assert(w2 == 16 * (r2 * d)) by (nonlinear_arith)
            requires
                w2 == (4 * (r * ox)) * (4 * (r * ox)) + (4 * (r * oy)) * (4 * (r * oy)),
                d == ox * ox + oy * oy,
                r2 == r * r,
        ;
        // The long side.
        let a = 4 * ((r + 1) * m);
        let b = 3 * r;
        assert(scaled * m2 < ((r + 1) * (r + 1)) * m2) by (nonlinear_arith)
            requires
                scaled < (r + 1) * (r + 1),
                m2 >= 1,
        ;
        assert(a * a == 16 * (((r + 1) * (r + 1)) * m2) && a > 0) by (nonlinear_arith)
            requires
                a == 4 * ((r + 1) * m),
                m2 == m * m,
                m >= 1,
                r >= 1,
        ;
        lemma_triangle(ux, uy, vx, vy, a, b);
        let top = 4 * (r * (m + 1));
        assert(a + b <= top) by (nonlinear_arith)
            requires
                a == 4 * ((r + 1) * m),
                b == 3 * r,
                top == 4 * (r * (m + 1)),
                4 * m <= r,
        ;
        assert((a + b) * (a + b) <= top * top) by (nonlinear_arith)
            requires
                0 <= a + b <= top,
        ;
        assert(top * top == 16 * (r2 * ((m + 1) * (m + 1)))) by (nonlinear_arith)
            requires
                top == 4 * (r * (m + 1)),
                r2 == r * r,
        ;
        assert(d < (m + 1) * (m + 1)) by (nonlinear_arith)
            requires
                16 * (r2 * d) < 16 * (r2 * ((m + 1) * (m + 1))),
                r2 >= 1,
        ;
        // The short side.
        let low = (m - 1) * (m - 1);
        if d < low {
            let c = 4 * (r * (m - 1));
            if m == 1 {
                assert(low == 0) by (nonlinear_arith)
                    requires
                        low == (m - 1) * (m - 1),
                        m == 1,
                ;
            }
            assert(m >= 2);
            assert(c > 0 && c * c == 16 * (r2 * low)) by (nonlinear_arith)
                requires
                    c == 4 * (r * (m - 1)),
                    low == (m - 1) * (m - 1),
                    r2 == r * r,
                    m >= 2,
                    r >= 1,
            ;
            assert(w2 < c * c) by (nonlinear_arith)
                requires
                    w2 == 16 * (r2 * d),
                    c * c == 16 * (r2 * low),
                    d < low,
                    r2 >= 1,
            ;
            lemma_triangle(wx, wy, -vx, -vy, c, b);
            assert(wx + (-vx) == ux && wy + (-vy) == uy);
            let full = 4 * (r * m);
            assert(c + b <= full && c + b >= 0) by (nonlinear_arith)
                requires
                    c == 4 * (r * (m - 1)),
                    b == 3 * r,
                    full == 4 * (r * m),
                    r >= 1,
                    m >= 2,
            ;
            assert((c + b) * (c + b) <= full * full) by (nonlinear_arith)
                requires
                    0 <= c + b <= full,
            ;
            assert(full * full == 16 * (r2 * m2)) by (nonlinear_arith)
                requires
                    full == 4 * (r * m),
                    r2 == r * r,
                    m2 == m * m,
            ;
            assert(r2 * m2 <= scaled * m2) by (nonlinear_arith)
                requires
                    r2 <= scaled,
                    m2 >= 1,
            ;
            assert(false);
        }
    }
}

/// The rope constraint puts the player on the circle: unless the world's
/// edge stops it, the new distance from the anchor differs from the rope by
/// at most one thousandth.
pub proof fn law_rope_circle(p: Player)
    requires
        p.wf(),
        p.position != p.grappler.grapple_point,
        p.spec_rope_constraint().position.within(WORLD_LIMIT - 1),
    ensures
        ({
            let after = p.spec_rope_constraint().position;
            let length = p.grappler.length as int;
            &&& dist_sq(after, p.grappler.grapple_point) < (length + 1) * (length + 1)
            &&& length >= 1 ==> (length - 1) * (length - 1) <= dist_sq(
                after,
                p.grappler.grapple_point,
            )
        }),
{
    let anchor = p.grappler.grapple_point;
    let rx = p.position.x - anchor.x;
    let ry = p.position.y - anchor.y;
    let n = dist_sq(p.position, anchor);
    let length = p.grappler.length as int;
    assert(n == rx * rx + ry * ry);
    law_rope_share_length(rx, ry, length);
    let tx = spec_nearest_over_root(rx, length, n);
    let ty = spec_nearest_over_root(ry, length, n);
    let after = p.spec_rope_constraint().position;
    assert(after.x == clamp(anchor.x + tx, WORLD_LIMIT as int));
    assert(after.y == clamp(anchor.y + ty, WORLD_LIMIT as int));
    assert(after.x - anchor.x == tx && after.y - anchor.y == ty);
    assert(dist_sq(after, anchor) == tx * tx + ty * ty);
}

/// The rope constraint strips the velocity along the rope: unless the speed
/// limit stops it, the product of what is left with the offset from the
/// anchor, squared and doubled, is at most the offset's squared length, so
/// the speed along the rope is under a thousandth a second.
pub proof fn law_rope_strips_radial_velocity(p: Player)
    requires
        p.wf(),
        p.position != p.grappler.grapple_point,
        p.spec_rope_constraint().velocity.within(SPEED_LIMIT - 1),
    ensures
        ({
            let rx = p.position.x - p.grappler.grapple_point.x;
            let ry = p.position.y - p.grappler.grapple_point.y;
            let v = p.spec_rope_constraint().velocity;
            2 * ((v.x * rx + v.y * ry) * (v.x * rx + v.y * ry)) <= rx * rx + ry * ry
        }),
{
    let anchor = p.grappler.grapple_point;
    let rx = p.position.x - anchor.x;
    let ry = p.position.y - anchor.y;
    let n = rx * rx + ry * ry;
    lemma_dist_sq_positive(p.position, anchor);
    assert(n == dist_sq(p.position, anchor));
    let radial = p.velocity.x * rx + p.velocity.y * ry;
    let tx = round_div(radial * rx, n);
    let ty = round_div(radial * ry, n);
    let v = p.spec_rope_constraint().velocity;
    assert(v.x == clamp(p.velocity.x - tx, SPEED_LIMIT as int));
    assert(v.y == clamp(p.velocity.y - ty, SPEED_LIMIT as int));
    assert(v.x == p.velocity.x - tx && v.y == p.velocity.y - ty);
    lemma_round_div(radial * rx, n);
    lemma_round_div(radial * ry, n);
    let px = 2 * (n * tx) - 2 * (radial * rx);
    let py = 2 * (n * ty) - 2 * (radial * ry);
    let left = v.x * rx + v.y * ry;
    let dot = px * rx + py * ry;
    assert(2 * (n * left) == -dot) by (nonlinear_arith)
        requires
            left == (p.velocity.x - tx) * rx + (p.velocity.y - ty) * ry,
            radial == p.velocity.x * rx + p.velocity.y * ry,
            n == rx * rx + ry * ry,
            px == 2 * (n * tx) - 2 * (radial * rx),
            py == 2 * (n * ty) - 2 * (radial * ry),
            dot == px * rx + py * ry,
    ;
    lemma_cauchy(px, py, rx, ry);
    let p2 = px * px + py * py;
    let n2 = n * n;
    assert(p2 <= 2 * n2) by (nonlinear_arith)
        requires
            p2 == px * px + py * py,
            abs(px) <= n,
            abs(py) <= n,
            n2 == n * n,
    ;
    assert(p2 * n <= 2 * n2 * n) by (nonlinear_arith)
        requires
            p2 <= 2 * n2,
            n > 0,
    ;
    let l2 = left * left;
    assert(dot * dot == 4 * (n2 * l2)) by (nonlinear_arith)
        requires
            2 * (n * left) == -dot,
            n2 == n * n,
            l2 == left * left,
    ;
    assert(n2 > 0) by (nonlinear_arith)
        requires
            n > 0,
            n2 == n * n,
    ;
    assert(2 * l2 <= n) by (nonlinear_arith)
        requires
            4 * (n2 * l2) <= 2 * n2 * n,
            n2 > 0,
    ;
}

/// Stripping the velocity along the rope does not lengthen it, up to
/// rounding: unless the speed limit stops it, a velocity no longer than `b`
/// comes out shorter than `b + 1`.
pub proof fn law_rope_keeps_speed(p: Player, b: int)
    requires
        p.wf(),
        p.position != p.grappler.grapple_point,
        p.spec_rope_constraint().velocity.within(SPEED_LIMIT - 1),
        0 <= b,
        p.velocity.x * p.velocity.x + p.velocity.y * p.velocity.y <= b * b,
    ensures
        ({
            let v = p.spec_rope_constraint().velocity;
            v.x * v.x + v.y * v.y < (b + 1) * (b + 1)
        }),
{
    let anchor = p.grappler.grapple_point;
    let rx = p.position.x - anchor.x;
    let ry = p.position.y - anchor.y;
    let n = rx * rx + ry * ry;
    lemma_dist_sq_positive(p.position, anchor);
    assert(n == dist_sq(p.position, anchor));
    let ux = p.velocity.x as int;
    let uy = p.velocity.y as int;
    let radial = ux * rx + uy * ry;
    let tx = round_div(radial * rx, n);
    let ty = round_div(radial * ry, n);
    let v = p.spec_rope_constraint().velocity;
    assert(v.x == clamp(ux - tx, SPEED_LIMIT as int));
    assert(v.y == clamp(uy - ty, SPEED_LIMIT as int));
    assert(v.x == ux - tx && v.y == uy - ty);
    lemma_round_div(radial * rx, n);
    lemma_round_div(radial * ry, n);
    let qx = 2 * (radial * rx) - 2 * (n * tx);
    let qy = 2 * (radial * ry) - 2 * (n * ty);
    let ax = n * ux;
    let ay = n * uy;
    let bx = radial * rx;
    let by = radial * ry;
    let px = 2 * ax - 2 * bx;
    let py = 2 * ay - 2 * by;
    let n2 = n * n;
    let u2 = ux * ux + uy * uy;
    let g2 = radial * radial;
    assert(ax * ax + ay * ay == n2 * u2) by (nonlinear_arith)
        requires
            ax == n * ux,
            ay == n * uy,
            n2 == n * n,
            u2 == ux * ux + uy * uy,
    ;
    assert(ax * bx == (n * radial) * (ux * rx)) by (nonlinear_arith)
        requires
            ax == n * ux,
            bx == radial * rx,
    ;
    assert(ay * by == (n * radial) * (uy * ry)) by (nonlinear_arith)
        requires
            ay == n * uy,
            by == radial * ry,
    ;
    assert(ax * bx + ay * by == n * g2) by (nonlinear_arith)
        requires
            ax * bx == (n * radial) * (ux * rx),
            ay * by == (n * radial) * (uy * ry),
            radial == ux * rx + uy * ry,
            g2 == radial * radial,
    ;
    assert(bx * bx + by * by == g2 * n) by (nonlinear_arith)
        requires
            bx == radial * rx,
            by == radial * ry,
            g2 == radial * radial,
            n == rx * rx + ry * ry,
    ;
    assert(px * px + py * py == 4 * (ax * ax + ay * ay) - 8 * (ax * bx + ay * by) + 4 * (bx * bx
        + by * by)) by (nonlinear_arith)
        requires
            px == 2 * ax - 2 * bx,
            py == 2 * ay - 2 * by,
    ;
    assert(n * g2 >= 0) by (nonlinear_arith)
        requires
            n > 0,
            g2 == radial * radial,
    ;
    let cap = 2 * (n * b);
    assert(cap * cap == 4 * (n2 * (b * b))) by (nonlinear_arith)
        requires
            cap == 2 * (n * b),
            n2 == n * n,
    ;
    assert(n2 * u2 <= n2 * (b * b)) by (nonlinear_arith)
        requires
            u2 <= b * b,
            n2 == n * n,
    ;
    assert(px * px + py * py <= cap * cap);
    let a = 2 * n;
    assert(qx * qx + qy * qy < a * a) by (nonlinear_arith)
        requires
            abs(qx) <= n,
            abs(qy) <= n,
            a == 2 * n,
            n >= 1,
    ;
    lemma_triangle(qx, qy, px, py, a, cap);
    let wx = 2 * (n * v.x);
    let wy = 2 * (n * v.y);
    assert(wx == qx + px && wy == qy + py) by (nonlinear_arith)
        requires
            wx == 2 * (n * (ux - tx)),
            wy == 2 * (n * (uy - ty)),
            qx == 2 * bx - 2 * (n * tx),
            qy == 2 * by - 2 * (n * ty),
            px == 2 * (n * ux) - 2 * bx,
            py == 2 * (n * uy) - 2 * by,
    ;
    let d = v.x * v.x + v.y * v.y;
    assert(wx * wx + wy * wy == 4 * (n2 * d)) by (nonlinear_arith)
        requires
            wx == 2 * (n * v.x),
            wy == 2 * (n * v.y),
            n2 == n * n,
            d == v.x * v.x + v.y * v.y,
    ;
    assert((a + cap) * (a + cap) == 4 * (n2 * ((b + 1) * (b + 1)))) by (nonlinear_arith)
        requires
            a == 2 * n,
            cap == 2 * (n * b),
            n2 == n * n,
    ;
    assert(n2 > 0) by (nonlinear_arith)
        requires
            n > 0,
            n2 == n * n,
    ;
    assert(d < (b + 1) * (b + 1)) by (nonlinear_arith)
        requires
            4 * (n2 * d) < 4 * (n2 * ((b + 1) * (b + 1))),
            n2 > 0,
    ;
}

/// A whole tick on the rope leaves the player on the circle: unless the
/// player came to lie on the anchor or the world's edge stops it, the
/// distance from the anchor after the tick differs from the rope by at most
/// one thousandth.
pub proof fn law_attached_tick_on_circle(p: Player, dt: u32)
    requires
        p.wf(),
        is_attached(p.grappler.state),
        p.spec_update(dt, false).grappler.length >= 1,
        p.spec_update(dt, false).position.within(WORLD_LIMIT - 1),
        (Player {
            grappler: Grappler { position: p.position, ..p.grappler },
            grounded: false,
            wall_sliding: false,
            ..p
        }).spec_integrate(dt).position != p.grappler.grapple_point,
    ensures
        ({
            let after = p.spec_update(dt, false);
            let length = after.grappler.length as int;
            &&& dist_sq(after.position, after.grappler.grapple_point) < (length + 1) * (length + 1)
            &&& (length - 1) * (length - 1) <= dist_sq(
                after.position,
                after.grappler.grapple_point,
            )
        }),
{
    let start = Player {
        grappler: Grappler { position: p.position, ..p.grappler },
        grounded: false,
        wall_sliding: false,
        ..p
    };
    let moved = start.spec_integrate(dt);
    assert(moved.wf());
    if p.grappler.state == GrapplerState::Grappled {
        law_rope_circle(moved);
        assert(p.spec_update(dt, false) == moved.spec_rope_constraint().spec_damp());
    } else {
        let step = spec_travel(600_000, dt as int);
        assert(step == (600_000 * dt) / 1_000_000);
        let held = Player {
            grappler: Grappler { length: start.spec_reeled_length(dt) as i64, ..moved.grappler },
            ..moved
        };
        assert(held.wf());
        law_rope_circle(held);
        assert(p.spec_update(dt, false) == start.spec_reel(dt));
    }
}

/// A velocity across the rope is left as it is by the rope constraint.
pub proof fn law_rope_keeps_tangential_velocity(p: Player)
    requires
        p.wf(),
        p.velocity.x * (p.position.x - p.grappler.grapple_point.x) + p.velocity.y * (p.position.y
            - p.grappler.grapple_point.y) == 0,
    ensures
        p.spec_rope_constraint().velocity == p.velocity,
{
    let rx = p.position.x - p.grappler.grapple_point.x;
    let ry = p.position.y - p.grappler.grapple_point.y;
    let n = rx * rx + ry * ry;
    if p.position != p.grappler.grapple_point {
        lemma_dist_sq_positive(p.position, p.grappler.grapple_point);
        assert(n == dist_sq(p.position, p.grappler.grapple_point));
        let radial = p.velocity.x * rx + p.velocity.y * ry;
        assert(radial * rx == 0 && radial * ry == 0) by (nonlinear_arith)
            requires
                radial == 0,
        ;
        lemma_round_div(0, n);
    }
}

/// A shot gives the hook a direction of unit length, up to rounding.
pub proof fn law_direction_is_unit(g: Grappler, start_pos: Vec2, target_pos: Vec2)
    requires
        g.state == GrapplerState::Idle,
        start_pos.within(POINT_LIMIT as int),
        target_pos.within(POINT_LIMIT as int),
    ensures
        ({
            let d = g.spec_fire(start_pos, target_pos).grapple_direction;
            &&& (d.x * d.x + d.y * d.y) * (ROOT_SCALE * ROOT_SCALE) <= (UNIT * UNIT) * ((ROOT_SCALE
                + 1) * (ROOT_SCALE + 1))
            &&& UNIT * UNIT < (abs(d.x as int) + 1) * (abs(d.x as int) + 1) + (abs(d.y as int) + 1)
                * (abs(d.y as int) + 1)
        }),
{
    let rx = target_pos.x - start_pos.x;
    let ry = target_pos.y - start_pos.y;
    let d = g.spec_fire(start_pos, target_pos).grapple_direction;
    if rx == 0 && ry == 0 {
        assert(d == Vec2 { x: UNIT, y: 0 });
        assert(d.x * d.x + d.y * d.y == UNIT * UNIT) by (nonlinear_arith)
            requires
                d.x == UNIT,
                d.y == 0,
        ;
        assert((UNIT * UNIT) * (ROOT_SCALE * ROOT_SCALE) <= (UNIT * UNIT) * ((ROOT_SCALE + 1) * (
        ROOT_SCALE + 1))) by (nonlinear_arith);
        assert(UNIT * UNIT < (UNIT + 1) * (UNIT + 1) + 1) by (nonlinear_arith);
    } else {
        let n = rx * rx + ry * ry;
        law_rescaled_length(rx, ry, UNIT as int);
        let root = sqrt_floor(n * ROOT_SCALE * ROOT_SCALE);
        let ox = spec_over_root(rx, UNIT as int, n);
        let oy = spec_over_root(ry, UNIT as int, n);
        let q = ox * ox + oy * oy;
        let u2 = UNIT * UNIT;
        assert(q >= 0) by (nonlinear_arith)
            requires
                q == ox * ox + oy * oy,
        ;
        // The coordinates fit: each is at most UNIT in magnitude.
        assert(u2 < (abs(ox) + 1) * (abs(ox) + 1) + (abs(oy) + 1) * (abs(oy) + 1));
        lemma_ratio_grows(q, u2, root, ROOT_SCALE as int);
        lemma_unit_share(rx, ry, n);
        assert(d.x == ox && d.y == oy);
    }
}

/// `q * r^2 <= u * (r+1)^2` carries over from a larger `r` to a smaller one.
pub proof fn lemma_ratio_grows(q: int, u: int, r: int, s: int)
    requires
        0 <= q,
        0 <= u,
        0 < s <= r,
        (r * r) * q <= ((r + 1) * (r + 1)) * u,
    ensures
        q * (s * s) <= u * ((s + 1) * (s + 1)),
{
    // (s+1)/s >= (r+1)/r, so ((s+1) r)^2 >= ((r+1) s)^2.
    let a = (s + 1) * r;
    let b = (r + 1) * s;
    assert(a >= b && b > 0) by (nonlinear_arith)
        requires
            a == (s + 1) * r,
            b == (r + 1) * s,
            0 < s <= r,
    ;
    assert(a * a >= b * b) by (nonlinear_arith)
        requires
            a >= b,
            b > 0,
    ;
    let r2 = r * r;
    let s2 = s * s;
    let rp = (r + 1) * (r + 1);
    let sp = (s + 1) * (s + 1);
    assert(a * a == sp * r2) by (nonlinear_arith)
        requires
            a == (s + 1) * r,
            sp == (s + 1) * (s + 1),
            r2 == r * r,
    ;
    assert(b * b == rp * s2) by (nonlinear_arith)
        requires
            b == (r + 1) * s,
            rp == (r + 1) * (r + 1),
            s2 == s * s,
    ;
    // r2 q <= rp u, times s2:  r2 s2 q <= rp s2 u <= sp r2 u, then cancel r2.
    assert(r2 * (s2 * q) <= r2 * (sp * u)) by (nonlinear_arith)
        requires
            r2 * q <= rp * u,
            rp * s2 <= sp * r2,
            s2 >= 0,
            u >= 0,
            q >= 0,
            r2 >= 0,
    ;
    assert(r2 > 0) by (nonlinear_arith)
        requires
            r > 0,
            r2 == r * r,
    ;
    assert(s2 * q <= sp * u) by (nonlinear_arith)
        requires
            r2 * (s2 * q) <= r2 * (sp * u),
            r2 > 0,
    ;
    assert(q * s2 == s2 * q && u * sp == sp * u) by (nonlinear_arith);
}

/// The shares of `UNIT` along a vector fit their 64-bit fields.
pub proof fn lemma_unit_share(rx: int, ry: int, n: int)
    requires
        n == rx * rx + ry * ry,
        rx != 0 || ry != 0,
    ensures
        abs(spec_over_root(rx, UNIT as int, n)) <= UNIT,
        abs(spec_over_root(ry, UNIT as int, n)) <= UNIT,
        is_short(spec_over_root(rx, UNIT as int, n), spec_over_root(ry, UNIT as int, n)),
{
    law_rescaled_length(rx, ry, UNIT as int);
    let root = sqrt_floor(n * ROOT_SCALE * ROOT_SCALE);
    let ox = spec_over_root(rx, UNIT as int, n);
    let oy = spec_over_root(ry, UNIT as int, n);
    let u = UNIT as int;
    let q = ox * ox + oy * oy;
    assert(ox * ox >= 0 && oy * oy >= 0) by (nonlinear_arith);
    lemma_ratio_grows(q, u * u, root, ROOT_SCALE as int);
    // q <= u^2 (1 + 1/S)^2 < (u + 1)^2, so neither coordinate exceeds u.
    let s2 = ROOT_SCALE * ROOT_SCALE;
    let up = (u + 1) * (u + 1);
    assert((u * u) * ((ROOT_SCALE + 1) * (ROOT_SCALE + 1)) < up * s2 && s2 > 0) by (nonlinear_arith)
        requires
            u == 1_000_000,
            ROOT_SCALE == 1_048_576,
            s2 == ROOT_SCALE * ROOT_SCALE,
            up == (u + 1) * (u + 1),
    ;
    assert(q < up) by (nonlinear_arith)
        requires
            q * s2 < up * s2,
            s2 > 0,
    ;
    if abs(ox) > u {
        assert(ox * ox >= (u + 1) * (u + 1)) by (nonlinear_arith)
            requires
                abs(ox) >= u + 1,
                u >= 0,
        ;
    }
    if abs(oy) > u {
        assert(oy * oy >= (u + 1) * (u + 1)) by (nonlinear_arith)
            requires
                abs(oy) >= u + 1,
                u >= 0,
        ;
    }
}

/// A shot while the hook is out changes nothing.
pub proof fn law_fire_when_busy(g: Grappler, start_pos: Vec2, target_pos: Vec2)
    requires
        g.state != GrapplerState::Idle,
    ensures
        g.spec_fire(start_pos, target_pos) == g,
{
}

/// Pressing the trigger while the hook extends or retracts changes nothing
/// of the player.
pub proof fn law_trigger_when_in_flight(p: Player, events: InputEvents, pointer: Vec2)
    requires
        p.grappler.state == GrapplerState::Grappling || p.grappler.state
            == GrapplerState::Retracting,
    ensures
        p.spec_trigger(events, pointer) == p,
{
}

/// No shot is accepted while the cooldown runs.
pub proof fn law_cooldown_gates_trigger(p: Player, events: InputEvents, pointer: Vec2)
    requires
        p.grappler.release_cooldown > 0,
    ensures
        p.spec_trigger(events, pointer) == p,
{
}

/// The snap moves a hit only onto a top corner within the snap radius, the
/// left one first; a hit farther than the radius from both top corners stays
/// where it is.
pub proof fn law_corner_snap(point: Vec2, rect: Rect)
    ensures
        dist_sq(point, Vec2 { x: rect.x, y: rect.y }) <= CORNER_SNAP_DISTANCE
            * CORNER_SNAP_DISTANCE ==> spec_snap_to_corner(point, rect) == (Vec2 {
            x: rect.x,
            y: rect.y,
        }),
        dist_sq(point, Vec2 { x: rect.x, y: rect.y }) > CORNER_SNAP_DISTANCE
            * CORNER_SNAP_DISTANCE && dist_sq(
            point,
            Vec2 { x: (rect.x + rect.width) as i64, y: rect.y },
        ) > CORNER_SNAP_DISTANCE * CORNER_SNAP_DISTANCE ==> spec_snap_to_corner(point, rect)
            == point,
        spec_snap_to_corner(point, rect) != point ==> dist_sq(
            point,
            spec_snap_to_corner(point, rect),
        ) <= CORNER_SNAP_DISTANCE * CORNER_SNAP_DISTANCE,
{
}

/// The cast attaches to the obstacle that comes first in the list: when a
/// sample lies in the first obstacle, the hit is on it, whatever follows in
/// the list and however near it lies.
pub proof fn law_first_listed_obstacle_wins(start: Vec2, end: Vec2, objects: Seq<Object>)
    requires
        start != end,
        objects.len() > 0,
        first_hit_sample(start, end, objects[0].rect(), 0) is Some,
    ensures
        spec_collision_point(start, end, objects) == Some(
            spec_snap_to_corner(
                first_hit_sample(start, end, objects[0].rect(), 0)->0,
                objects[0].rect(),
            ),
        ),
{
}

/// A cast of no length and a cast among no obstacles attach nowhere.
pub proof fn law_empty_cast(start: Vec2, end: Vec2, objects: Seq<Object>)
    requires
        start == end || objects.len() == 0,
    ensures
        spec_collision_point(start, end, objects) is None,
{
    if start != end {
        assert(first_hit_object(start, end, objects, 0) is None);
    }
}

/// The resolver's side is the first of top, bottom, left, right whose depth
/// is the least.
pub proof fn law_axis_order(top: int, bottom: int, left: int, right: int)
    ensures
        spec_resolution_axis(top, bottom, left, right) == Axis::Top <==> top <= bottom && top
            <= left && top <= right,
        spec_resolution_axis(top, bottom, left, right) == Axis::Bottom <==> bottom < top && bottom
            <= left && bottom <= right,
        spec_resolution_axis(top, bottom, left, right) == Axis::Left <==> left < top && left
            < bottom && left <= right,
        spec_resolution_axis(top, bottom, left, right) == Axis::Right <==> right < top && right
            < bottom && right < left,
{
}

/// The layers kept round a height are exactly the heights that lie a whole
/// number of gaps above `layer_y`, no more than `BUFFER_ABOVE` above the
/// player and no more than `BUFFER_BELOW` below.
pub proof fn law_layers_window(layer_y: int, player_y: int, v: i32)
    requires
        -2_000_000_600 <= layer_y <= 2_000_000_000,
        -2_000_000_000 <= player_y <= 2_000_000_000,
    ensures
        layers_from(layer_y, player_y).contains(v) <==> {
            &&& player_y - BUFFER_ABOVE <= v <= player_y + BUFFER_BELOW
            &&& v <= layer_y
            &&& (layer_y - v) % (LAYER_GAP as int) == 0
        },
    decreases layer_y - (player_y - BUFFER_ABOVE) + LAYER_GAP,
{
    if layer_y >= player_y - BUFFER_ABOVE {
        let rest = layers_from(layer_y - LAYER_GAP, player_y);
        law_layers_window(layer_y - LAYER_GAP, player_y, v);
        if layer_y <= player_y + BUFFER_BELOW {
            let head = seq![layer_y as i32];
            let all = head + rest;
            assert(layers_from(layer_y, player_y) == all);
            if all.contains(v) {
                let i = choose|i: int| 0 <= i < all.len() && all[i] == v;
                if i == 0 {
                    assert(v == layer_y);
                } else {
                    assert(rest[i - 1] == v);
                    assert(rest.contains(v));
                }
            }
            if v == layer_y {
                assert(all[0] == v);
            }
            if rest.contains(v) {
                let i = choose|i: int| 0 <= i < rest.len() && rest[i] == v;
                assert(all[i + 1] == v);
            }
        }
    } else {
        assert(layers_from(layer_y, player_y) =~= Seq::<i32>::empty());
    }
}

/// Putting the grapple away lets the hook go, whatever it was doing.
pub proof fn law_switch_releases(p: Player, events: InputEvents)
    requires
        !events.select_grapple,
        events.select_flashlight,
    ensures
        p.spec_select_tool(events).current_tool == PlayerTool::Flashlight,
        p.spec_select_tool(events).grappler.state == GrapplerState::Idle,
        p.spec_select_tool(events).grappler.length == 0,
{
}

} // verus!

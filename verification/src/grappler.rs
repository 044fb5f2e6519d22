//! The grappling hook: its state machine, the sampled segment cast that finds
//! an anchor, and the corner snap.

use vstd::prelude::*;
use crate::fixed::{
    abs, trunc_div, lemma_product_bound, lemma_scaled_component, mul_wide, div_trunc, MICROS, UNIT,
    WORLD_LIMIT, POINT_LIMIT, OBJECT_LIMIT, LENGTH_LIMIT,
};
pub use crate::geometry::point_in_rect;
use crate::geometry::{
    Vec2, Rect, spec_point_in_rect, dist_sq, is_short, spec_distance, distance,
    spec_normalized, direction_between, lemma_dist_sq_bound, lemma_dist_sq_positive,
    distance_squared,
};
use crate::object::{Object, all_wf};

verus! {

/// Longest rope, in thousandths of a world unit.
pub const ROPE_LENGTH: i64 = 400_000;

/// Speed of the hook while it extends or retracts, per second.
pub const GRAPPLE_SPEED: i64 = 1_200_000;

/// Distance between two samples of a segment cast.
pub const SAMPLE_STEP: i64 = 5_000;

/// Radius around a top corner within which a hit moves to the corner.
pub const CORNER_SNAP_DISTANCE: i64 = 20_000;

/// Cooldown after a miss or a release, in microseconds.
pub const RELEASE_COOLDOWN: i64 = 200_000;

/// What the hook is doing.
#[derive(Clone, Copy, Debug, PartialEq, Eq, Structural)]
pub enum GrapplerState {
    /// At rest.
    Idle,
    /// Extending toward the target.
    Grappling,
    /// Coming back after a miss.
    Retracting,
    /// Attached to an anchor.
    Grappled,
    /// Attached and reeling the player in.
    Pulling,
}

/// The hook and its rope. `position` follows the owner; `grapple_point` is
/// the anchor while attached; `grapple_direction` is a unit vector scaled by
/// `UNIT` while the hook flies.
#[derive(Clone, Copy, Debug, PartialEq, Eq, Structural)]
pub struct Grappler {
    pub position: Vec2,
    pub length: i64,
    pub grapple_point: Vec2,
    pub state: GrapplerState,
    pub grapple_direction: Vec2,
    /// Microseconds until the next shot is accepted.
    pub release_cooldown: i64,
}

/// Distance covered at `speed` (per second) in `dt` microseconds.
pub open spec fn spec_travel(speed: int, dt: int) -> int {
    trunc_div(speed * dt, MICROS as int)
}

/// Distance covered at `speed` (per second) in `dt` microseconds, rounded
/// toward zero.
pub fn travel(speed: i64, dt: u32) -> (d: i128)
    ensures
        d == spec_travel(speed as int, dt as int),
        abs(d as int) <= abs(speed * dt),
        abs(d as int) <= 0x8000_0000_0000_0000_0000_0000,
{
    proof {
        lemma_product_bound(speed as int, dt as int, 0x8000_0000_0000_0000, 0x1_0000_0000);
    }
    div_trunc(mul_wide(speed, dt as i64), MICROS as i128)
}

/// The free end of a rope of `length` that leaves `position` along `direction`.
pub open spec fn rope_end(position: Vec2, direction: Vec2, length: int) -> Vec2 {
    Vec2 {
        x: (position.x + trunc_div(direction.x * length, UNIT as int)) as i64,
        y: (position.y + trunc_div(direction.y * length, UNIT as int)) as i64,
    }
}

/// A rope along a direction reaches no farther in a coordinate than its
/// length.
proof fn lemma_rope_component(c: int, length: int)
    requires
        abs(c) <= UNIT,
        0 <= length,
    ensures
        abs(trunc_div(c * length, UNIT as int)) <= length,
{
    let m = abs(c);
    assert(abs(c * length) == m * length) by (nonlinear_arith)
        requires
            m == abs(c),
            0 <= length,
    ;
    assert((m * length) / (UNIT as int) <= length) by (nonlinear_arith)
        requires
            0 <= m <= UNIT,
            0 <= length,
            UNIT == 1_000_000,
    ;
}

/// The free end of an extending rope.
fn rope_end_point(position: Vec2, direction: Vec2, length: i64) -> (end: Vec2)
    requires
        position.within(WORLD_LIMIT as int),
        direction.within(UNIT as int),
        0 <= length <= 10_000_000_000,
    ensures
        end == rope_end(position, direction, length as int),
        end.within(POINT_LIMIT as int),
{
    proof {
        lemma_rope_component(direction.x as int, length as int);
        lemma_rope_component(direction.y as int, length as int);
    }
    let ox: i128 = div_trunc(mul_wide(direction.x, length), UNIT as i128);
    let oy: i128 = div_trunc(mul_wide(direction.y, length), UNIT as i128);
    Vec2 { x: (position.x as i128 + ox) as i64, y: (position.y as i128 + oy) as i64 }
}

/// The top-left corner of `rect` when `point` is within the snap radius of
/// it, else the top-right corner when `point` is within the radius of that,
/// else `point` itself.
pub open spec fn spec_snap_to_corner(point: Vec2, rect: Rect) -> Vec2 {
    let top_left = Vec2 { x: rect.x, y: rect.y };
    let top_right = Vec2 { x: (rect.x + rect.width) as i64, y: rect.y };
    if dist_sq(point, top_left) <= CORNER_SNAP_DISTANCE * CORNER_SNAP_DISTANCE {
        top_left
    } else if dist_sq(point, top_right) <= CORNER_SNAP_DISTANCE * CORNER_SNAP_DISTANCE {
        top_right
    } else {
        point
    }
}

/// Moves a hit that lies within the snap radius of a top corner of `rect`
/// onto that corner, the left corner first.
pub fn snap_to_corner_if_close(collision_point: Vec2, rect: Rect) -> (snapped: Vec2)
    requires
        collision_point.within(POINT_LIMIT as int),
        -OBJECT_LIMIT <= rect.x <= OBJECT_LIMIT,
        -OBJECT_LIMIT <= rect.y <= OBJECT_LIMIT,
        -OBJECT_LIMIT <= rect.width <= OBJECT_LIMIT,
    ensures
        snapped == spec_snap_to_corner(collision_point, rect),
        snapped == collision_point || (snapped.y == rect.y && (snapped.x == rect.x || snapped.x
            == rect.x + rect.width)),
{
    let top_left = Vec2 { x: rect.x, y: rect.y };
    let top_right = Vec2 { x: rect.x + rect.width, y: rect.y };
    let radius_sq: u128 = 400_000_000;
    if distance_squared(collision_point, top_left) <= radius_sq {
        return top_left;
    }
    if distance_squared(collision_point, top_right) <= radius_sq {
        return top_right;
    }
    collision_point
}

/// Number of the last sample of a segment of length `len`.
pub open spec fn sample_count(len: int) -> int {
    len / (SAMPLE_STEP as int)
}

/// The `i`-th sample of the segment from `start` to `end`: the point at
/// distance `i * SAMPLE_STEP` from `start`.
pub open spec fn sample_point(start: Vec2, end: Vec2, i: int) -> Vec2 {
    let len = spec_distance(end, start);
    Vec2 {
        x: (start.x + trunc_div((end.x - start.x) * (i * SAMPLE_STEP), len)) as i64,
        y: (start.y + trunc_div((end.y - start.y) * (i * SAMPLE_STEP), len)) as i64,
    }
}

/// The first sample numbered `i` or more that lies in `rect`.
pub open spec fn first_hit_sample(start: Vec2, end: Vec2, rect: Rect, i: int) -> Option<Vec2>
    decreases sample_count(spec_distance(end, start)) - i + 1,
{
    if i > sample_count(spec_distance(end, start)) {
        None
    } else if spec_point_in_rect(sample_point(start, end, i), rect) {
        Some(sample_point(start, end, i))
    } else {
        first_hit_sample(start, end, rect, i + 1)
    }
}

/// The snapped first hit on the first obstacle numbered `j` or more that any
/// sample of the segment lies in.
pub open spec fn first_hit_object(start: Vec2, end: Vec2, objects: Seq<Object>, j: int) -> Option<
    Vec2,
>
    decreases objects.len() - j,
{
    if j < 0 || j >= objects.len() {
        None
    } else {
        match first_hit_sample(start, end, objects[j].rect(), 0) {
            Some(p) => Some(spec_snap_to_corner(p, objects[j].rect())),
            None => first_hit_object(start, end, objects, j + 1),
        }
    }
}

/// Where a cast from `start` to `end` attaches: nowhere on a segment of
/// length zero; else on the first obstacle in list order that holds a sample,
/// at its first such sample, snapped to a near top corner.
pub open spec fn spec_collision_point(start: Vec2, end: Vec2, objects: Seq<Object>) -> Option<
    Vec2,
> {
    if start == end {
        None
    } else {
        first_hit_object(start, end, objects, 0)
    }
}

/// The `i`-th sample of a segment of length `len`.
fn sample_at(start: Vec2, end: Vec2, len: i64, i: i64) -> (p: Vec2)
    requires
        start.within(POINT_LIMIT as int),
        end.within(POINT_LIMIT as int),
        len == spec_distance(end, start),
        crate::fixed::is_sqrt_floor(dist_sq(end, start), len as int),
        len > 0,
        0 <= i <= sample_count(len as int),
    ensures
        p == sample_point(start, end, i as int),
        p.within(POINT_LIMIT as int),
{
    let dx: i64 = end.x - start.x;
    let dy: i64 = end.y - start.y;
    let t: i64 = i * SAMPLE_STEP;
    proof {
        lemma_dist_sq_bound(end, start);
        crate::fixed::lemma_sqrt_floor_dominates(dist_sq(end, start), len as int, dx as int);
        crate::fixed::lemma_sqrt_floor_dominates(dist_sq(end, start), len as int, dy as int);
        lemma_scaled_component(dx as int, t as int, len as int);
        lemma_scaled_component(dy as int, t as int, len as int);
    }
    let ox: i128 = div_trunc(mul_wide(dx, t), len as i128);
    let oy: i128 = div_trunc(mul_wide(dy, t), len as i128);
    Vec2 { x: (start.x as i128 + ox) as i64, y: (start.y as i128 + oy) as i64 }
}

/// Casts the segment from `start` to `end` against `objects`, sampling it
/// every `SAMPLE_STEP`. The obstacles are tried in the order of the list, so
/// an earlier obstacle wins over a nearer one.
pub fn get_collision_point(start: Vec2, end: Vec2, objects: &[Object]) -> (hit: Option<Vec2>)
    requires
        start.within(POINT_LIMIT as int),
        end.within(POINT_LIMIT as int),
        all_wf(objects@),
    ensures
        hit == spec_collision_point(start, end, objects@),
        hit is Some ==> hit->0.within(WORLD_LIMIT as int),
{
    proof {
        lemma_dist_sq_positive(end, start);
    }
    if start.x == end.x && start.y == end.y {
        return None;
    }
    let len: i64 = distance(end, start);
    proof {
        if len == 0 {
            assert((len + 1) * (len + 1) == 1) by (nonlinear_arith)
                requires
                    len == 0,
            ;
        }
    }
    let num_steps: i64 = len / SAMPLE_STEP;
    let mut j: usize = 0;
    while j < objects.len()
        invariant
            start.within(POINT_LIMIT as int),
            end.within(POINT_LIMIT as int),
            all_wf(objects@),
            len == spec_distance(end, start),
            crate::fixed::is_sqrt_floor(dist_sq(end, start), len as int),
            len > 0,
            start != end,
            num_steps == sample_count(len as int),
            0 <= j <= objects.len(),
            first_hit_object(start, end, objects@, 0) == first_hit_object(
                start,
                end,
                objects@,
                j as int,
            ),
        decreases objects.len() - j,
    {
        let rect = objects[j].get_rect();
        assert(objects@[j as int].wf());
        let mut i: i64 = 0;
        while i <= num_steps
            invariant
                start.within(POINT_LIMIT as int),
                end.within(POINT_LIMIT as int),
                len == spec_distance(end, start),
                crate::fixed::is_sqrt_floor(dist_sq(end, start), len as int),
                len > 0,
                start != end,
                num_steps == sample_count(len as int),
                0 <= i <= num_steps + 1,
                0 <= j < objects.len(),
                rect == objects@[j as int].rect(),
                objects@[j as int].wf(),
                first_hit_sample(start, end, rect, 0) == first_hit_sample(start, end, rect, i as int),
                first_hit_object(start, end, objects@, 0) == first_hit_object(
                    start,
                    end,
                    objects@,
                    j as int,
                ),
            decreases num_steps + 1 - i,
        {
            let p = sample_at(start, end, len, i);
            if point_in_rect(p, rect) {
                proof {
                    assert(first_hit_sample(start, end, rect, i as int) == Some(p));
                    assert(first_hit_object(start, end, objects@, j as int) == Some(
                        spec_snap_to_corner(p, rect),
                    ));
                    assert(spec_point_in_rect(p, rect));
                }
                return Some(snap_to_corner_if_close(p, rect));
            }
            proof {
                assert(first_hit_sample(start, end, rect, i as int) == first_hit_sample(
                    start,
                    end,
                    rect,
                    i + 1,
                ));
            }
            i = i + 1;
        }
        proof {
            assert(first_hit_sample(start, end, rect, i as int) is None);
            assert(first_hit_object(start, end, objects@, j as int) == first_hit_object(
                start,
                end,
                objects@,
                j + 1,
            ));
        }
        j = j + 1;
    }
    None
}

impl Grappler {
    /// The bounds and the relation between state and length that every
    /// operation keeps.
    pub open spec fn wf(self) -> bool {
        &&& self.position.within(WORLD_LIMIT as int)
        &&& self.grapple_point.within(WORLD_LIMIT as int)
        &&& self.grapple_direction.within(UNIT as int)
        &&& is_short(self.grapple_direction.x as int, self.grapple_direction.y as int)
        &&& 0 <= self.length <= LENGTH_LIMIT
        &&& 0 <= self.release_cooldown <= RELEASE_COOLDOWN
        &&& (self.state == GrapplerState::Idle ==> self.length == 0)
        &&& (self.state == GrapplerState::Grappling || self.state == GrapplerState::Retracting
            ==> self.length <= ROPE_LENGTH)
    }

    /// An idle hook at `position`.
    pub fn new(position: Vec2) -> (g: Grappler)
        requires
            position.within(WORLD_LIMIT as int),
        ensures
            g == (Grappler {
                position,
                length: 0,
                grapple_point: Vec2 { x: 0, y: 0 },
                state: GrapplerState::Idle,
                grapple_direction: Vec2 { x: 0, y: 0 },
                release_cooldown: 0,
            }),
            g.wf(),
    {
        Grappler {
            position,
            length: 0,
            grapple_point: Vec2::zero(),
            state: GrapplerState::Idle,
            grapple_direction: Vec2::zero(),
            release_cooldown: 0,
        }
    }

    /// The hook after a shot from `start_pos` toward `target_pos`: an idle
    /// hook starts extending with no rope out; any other is left as it is.
    pub open spec fn spec_fire(self, start_pos: Vec2, target_pos: Vec2) -> Grappler {
        if self.state == GrapplerState::Idle {
            Grappler {
                state: GrapplerState::Grappling,
                length: 0,
                position: start_pos,
                grapple_direction: spec_normalized(
                    Vec2 {
                        x: (target_pos.x - start_pos.x) as i64,
                        y: (target_pos.y - start_pos.y) as i64,
                    },
                ),
                ..self
            }
        } else {
            self
        }
    }

    /// Sends an idle hook out from `start_pos` toward `target_pos`; does nothing
    /// to a hook that is out.
    pub fn fire(&mut self, start_pos: Vec2, target_pos: Vec2)
        requires
            old(self).wf(),
            start_pos.within(WORLD_LIMIT as int),
            target_pos.within(POINT_LIMIT as int),
        ensures
            *final(self) == old(self).spec_fire(start_pos, target_pos),
            final(self).wf(),
    {
        if self.state == GrapplerState::Idle {
            self.state = GrapplerState::Grappling;
            self.length = 0;
            self.position = start_pos;
            self.grapple_direction = direction_between(start_pos, target_pos);
        }
    }

    /// The hook after `dt` microseconds among `objects`.
    pub open spec fn spec_update(self, dt: u32, objects: Seq<Object>) -> Grappler {
        match self.state {
            GrapplerState::Grappling => {
                let length = self.length + spec_travel(GRAPPLE_SPEED as int, dt as int);
                let end_point = rope_end(self.position, self.grapple_direction, length);
                match spec_collision_point(self.position, end_point, objects) {
                    Some(p) => Grappler {
                        grapple_point: p,
                        length: spec_distance(p, self.position) as i64,
                        state: GrapplerState::Grappled,
                        ..self
                    },
                    None => if length >= ROPE_LENGTH {
                        Grappler { length: ROPE_LENGTH, state: GrapplerState::Retracting, ..self }
                    } else {
                        Grappler { length: length as i64, ..self }
                    },
                }
            },
            GrapplerState::Retracting => {
                let length = self.length - spec_travel(GRAPPLE_SPEED as int, dt as int);
                if length <= 0 {
                    Grappler {
                        length: 0,
                        state: GrapplerState::Idle,
                        release_cooldown: RELEASE_COOLDOWN,
                        ..self
                    }
                } else {
                    Grappler { length: length as i64, ..self }
                }
            },
            _ => self,
        }
    }

    /// Advances the hook by `delta_time` microseconds: an extending hook grows
    /// and attaches at a hit or turns back at the longest rope; a retracting
    /// hook shrinks and comes to rest with a cooldown.
    pub fn update(&mut self, delta_time: u32, objects: &[Object])
        requires
            old(self).wf(),
            all_wf(objects@),
        ensures
            *final(self) == old(self).spec_update(delta_time, objects@),
            final(self).wf(),
            final(self).state == GrapplerState::Retracting ==> final(self).length > 0,
    {
        match self.state {
            GrapplerState::Grappling => {
                let step: i128 = travel(GRAPPLE_SPEED, delta_time);
                let length: i64 = (self.length as i128 + step) as i64;
                let end_point = rope_end_point(self.position, self.grapple_direction, length);
                match get_collision_point(self.position, end_point, objects) {
                    Some(collision_point) => {
                        self.grapple_point = collision_point;
                        self.length = distance(collision_point, self.position);
                        self.state = GrapplerState::Grappled;
                    },
                    None => {
                        if length >= ROPE_LENGTH {
                            self.length = ROPE_LENGTH;
                            self.state = GrapplerState::Retracting;
                        } else {
                            self.length = length;
                        }
                    },
                }
            },
            GrapplerState::Retracting => {
                let step: i128 = travel(GRAPPLE_SPEED, delta_time);
                let length: i128 = self.length as i128 - step;
                if length <= 0 {
                    self.length = 0;
                    self.state = GrapplerState::Idle;
                    self.release_cooldown = RELEASE_COOLDOWN;
                } else {
                    self.length = length as i64;
                }
            },
            _ => {},
        }
    }
}

} // verus!

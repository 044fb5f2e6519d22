//! The player body: the per-tick integrator, the rope constraint, the
//! obstacle resolver and the reaction to decoded input.

use vstd::prelude::*;
use crate::fixed::{
    abs, clamp, trunc_div, round_div, lemma_product_bound, lemma_round_div_bound, mul_wide, mul_big,
    div_trunc, div_round, clamp_to, nearest_over_root, spec_nearest_over_root, WORLD_LIMIT,
    POINT_LIMIT, SPEED_LIMIT,
};
use crate::geometry::{
    Vec2, spec_point_in_rect, point_in_rect, distance_squared, spec_normalized,
    direction_between, lemma_dist_sq_bound, lemma_dist_sq_positive,
};
use crate::grappler::{Grappler, GrapplerState, spec_travel, travel, RELEASE_COOLDOWN};
use crate::object::{Object, all_wf};

verus! {

/// Half the side of the player's bounding square.
pub const PLAYER_SIZE: i64 = 10_000;

/// Downward acceleration, per second squared.
pub const GRAVITY: i64 = 500_000;

/// Speed at which a reeling rope shortens, per second.
pub const REEL_IN_SPEED: i64 = 600_000;

/// Height below which the player counts as fallen.
pub const FALL_LINE: i64 = 1_000_000;

/// Downward speed imposed while sliding along an obstacle.
pub const SLIDE_SPEED: i64 = 50_000;

/// Upward speed of a jump.
pub const JUMP_SPEED: i64 = 300_000;

/// Horizontal speed while a direction is held.
pub const RUN_SPEED: i64 = 150_000;

/// Extra downward acceleration while fast fall is held, per second squared.
pub const FAST_FALL: i64 = 200_000;

/// How far ahead the resolver looks for an overlap, in microseconds.
pub const PREDICT_MICROS: u32 = 50_000;

/// Cooldown after an imminent overlap let the hook go, in microseconds.
pub const CONTACT_COOLDOWN: i64 = 100_000;

/// Horizontal padding of an obstacle while the hook is attached.
pub const PADDING_ATTACHED: i64 = 2_000;

/// Horizontal padding of an obstacle otherwise.
pub const PADDING_FREE: i64 = 10_000;

/// The tool in hand.
#[derive(Clone, Copy, Debug, PartialEq, Eq, Structural)]
pub enum PlayerTool {
    Grapple,
    Flashlight,
}

/// The side of an obstacle through which the player is pushed out.
#[derive(Clone, Copy, Debug, PartialEq, Eq, Structural)]
pub enum Axis {
    Top,
    Bottom,
    Left,
    Right,
}

/// The player's body with its hook and tools.
#[derive(Clone, Copy, Debug, PartialEq, Eq, Structural)]
pub struct Player {
    pub position: Vec2,
    pub velocity: Vec2,
    pub grounded: bool,
    pub wall_sliding: bool,
    pub grappler: Grappler,
    pub current_tool: PlayerTool,
    pub flashlight_direction: Vec2,
}

/// What a tick of the body reports.
#[derive(Clone, Copy, Debug, PartialEq, Eq, Structural)]
pub struct UpdateState {
    pub fell: bool,
}

/// The decoded input of one tick.
#[derive(Clone, Copy, Debug, PartialEq, Eq, Structural)]
pub struct InputEvents {
    pub select_grapple: bool,
    pub select_flashlight: bool,
    pub fire: bool,
    pub release: bool,
    pub jump: bool,
    pub move_left: bool,
    pub move_right: bool,
    pub fast_fall: bool,
}

/// Whether the hook holds an anchor.
pub open spec fn is_attached(state: GrapplerState) -> bool {
    state == GrapplerState::Grappled || state == GrapplerState::Pulling
}

/// The least of four depths.
pub open spec fn min4(top: int, bottom: int, left: int, right: int) -> int {
    let a = if left <= right { left } else { right };
    let b = if a <= top { a } else { top };
    if b <= bottom { b } else { bottom }
}

/// The side with the least depth; among equal depths top comes before
/// bottom, bottom before left, left before right.
pub open spec fn spec_resolution_axis(top: int, bottom: int, left: int, right: int) -> Axis {
    let m = min4(top, bottom, left, right);
    if m == top {
        Axis::Top
    } else if m == bottom {
        Axis::Bottom
    } else if m == left {
        Axis::Left
    } else {
        Axis::Right
    }
}

/// The side with the least of four overlap depths, top before bottom before
/// left before right.
pub fn resolution_axis(top: i64, bottom: i64, left: i64, right: i64) -> (axis: Axis)
    ensures
        axis == spec_resolution_axis(top as int, bottom as int, left as int, right as int),
{
    let a: i64 = if left <= right { left } else { right };
    let b: i64 = if a <= top { a } else { top };
    let m: i64 = if b <= bottom { b } else { bottom };
    if m == top {
        Axis::Top
    } else if m == bottom {
        Axis::Bottom
    } else if m == left {
        Axis::Left
    } else {
        Axis::Right
    }
}

/// A velocity component after one tick of damping: ninety-nine hundredths,
/// rounded to nearest.
pub open spec fn spec_damped(v: int) -> int {
    round_div(v * 99, 100)
}

/// A velocity component after one tick of friction: four fifths.
pub open spec fn spec_slowed(v: int) -> int {
    trunc_div(v * 4, 5)
}

impl Player {
    /// Position, velocity and hook are within the simulated range.
    pub open spec fn wf(self) -> bool {
        &&& self.position.within(WORLD_LIMIT as int)
        &&& self.velocity.within(SPEED_LIMIT as int)
        &&& self.grappler.wf()
    }

    /// A player at rest at `position`, grounded, with an idle hook and the
    /// grapple in hand.
    pub fn new(position: Vec2) -> (p: Player)
        requires
            position.within(WORLD_LIMIT as int),
        ensures
            p == (Player {
                position,
                velocity: Vec2 { x: 0, y: 0 },
                grounded: true,
                wall_sliding: false,
                grappler: Grappler {
                    position,
                    length: 0,
                    grapple_point: Vec2 { x: 0, y: 0 },
                    state: GrapplerState::Idle,
                    grapple_direction: Vec2 { x: 0, y: 0 },
                    release_cooldown: 0,
                },
                current_tool: PlayerTool::Grapple,
                flashlight_direction: Vec2 { x: 0, y: 0 },
            }),
            p.wf(),
    {
        Player {
            position,
            velocity: Vec2::zero(),
            grounded: true,
            wall_sliding: false,
            grappler: Grappler::new(position),
            current_tool: PlayerTool::Grapple,
            flashlight_direction: Vec2::zero(),
        }
    }

    pub open spec fn spec_has_fallen(self) -> bool {
        self.position.y > FALL_LINE
    }

    /// Whether the player is below the fall line.
    pub fn has_fallen(&self) -> (fell: bool)
        ensures
            fell == self.spec_has_fallen(),
    {
        self.position.y > FALL_LINE
    }

    /// Whether the bounding square, moved ahead by the look-ahead time at the
    /// current velocity, overlaps the obstacle.
    pub open spec fn predicted_overlap(self, object: Object) -> bool {
        let px = self.position.x + spec_travel(self.velocity.x as int, PREDICT_MICROS as int);
        let py = self.position.y + spec_travel(self.velocity.y as int, PREDICT_MICROS as int);
        &&& px + PLAYER_SIZE > object.position.x
        &&& px - PLAYER_SIZE < object.position.x + object.size.x
        &&& py + PLAYER_SIZE > object.position.y
        &&& py - PLAYER_SIZE < object.position.y + object.size.y
    }

    /// The look-ahead: a hook that is out lets go when an overlap is
    /// imminent.
    pub open spec fn spec_lookahead(self, object: Object) -> Player {
        if self.grappler.state != GrapplerState::Idle && self.predicted_overlap(object) {
            Player {
                grappler: Grappler {
                    state: GrapplerState::Idle,
                    length: 0,
                    release_cooldown: CONTACT_COOLDOWN,
                    ..self.grappler
                },
                ..self
            }
        } else {
            self
        }
    }

    /// Horizontal padding of obstacles in the hook's current state.
    pub open spec fn padding(self) -> int {
        if is_attached(self.grappler.state) { PADDING_ATTACHED as int } else { PADDING_FREE as int }
    }

    /// Whether the bounding square overlaps the horizontally padded obstacle.
    pub open spec fn overlaps_padded(self, object: Object) -> bool {
        &&& self.position.x + PLAYER_SIZE > object.position.x - self.padding()
        &&& self.position.x - PLAYER_SIZE < object.position.x + object.size.x + self.padding()
        &&& self.position.y + PLAYER_SIZE > object.position.y
        &&& self.position.y - PLAYER_SIZE < object.position.y + object.size.y
    }

    /// The side through which the player leaves the obstacle.
    pub open spec fn overlap_axis(self, object: Object) -> Axis {
        spec_resolution_axis(
            self.position.y + PLAYER_SIZE - object.position.y,
            object.position.y + object.size.y - (self.position.y - PLAYER_SIZE),
            self.position.x + PLAYER_SIZE - object.position.x,
            object.position.x + object.size.x - (self.position.x - PLAYER_SIZE),
        )
    }

    /// The push out of `object` along `axis` while the hook holds an anchor:
    /// always moved to the edge, the velocity toward the obstacle removed.
    pub open spec fn resolved_attached(self, object: Object, axis: Axis) -> (Player, bool) {
        match axis {
            Axis::Top => (
                Player {
                    position: Vec2 {
                        x: self.position.x,
                        y: (object.position.y - PLAYER_SIZE) as i64,
                    },
                    velocity: Vec2 {
                        x: self.velocity.x,
                        y: if self.velocity.y > 0 { 0 } else { self.velocity.y },
                    },
                    grounded: true,
                    ..self
                },
                true,
            ),
            Axis::Bottom => (
                Player {
                    position: Vec2 {
                        x: self.position.x,
                        y: (object.position.y + object.size.y + PLAYER_SIZE) as i64,
                    },
                    velocity: Vec2 {
                        x: self.velocity.x,
                        y: if self.velocity.y < 0 { 0 } else { self.velocity.y },
                    },
                    ..self
                },
                false,
            ),
            Axis::Left => (
                Player {
                    position: Vec2 {
                        x: (object.position.x - PLAYER_SIZE) as i64,
                        y: self.position.y,
                    },
                    velocity: Vec2 {
                        x: if self.velocity.x > 0 { 0 } else { self.velocity.x },
                        y: self.velocity.y,
                    },
                    wall_sliding: true,
                    ..self
                },
                false,
            ),
            Axis::Right => (
                Player {
                    position: Vec2 {
                        x: (object.position.x + object.size.x + PLAYER_SIZE) as i64,
                        y: self.position.y,
                    },
                    velocity: Vec2 {
                        x: if self.velocity.x < 0 { 0 } else { self.velocity.x },
                        y: self.velocity.y,
                    },
                    wall_sliding: true,
                    ..self
                },
                false,
            ),
        }
    }

    /// The push out of `object` along `axis` while the hook holds no anchor:
    /// only when the player moves toward that side.
    pub open spec fn resolved_free(self, object: Object, axis: Axis) -> (Player, bool) {
        match axis {
            Axis::Top => if self.velocity.y > 0 {
                (
                    Player {
                        position: Vec2 {
                            x: self.position.x,
                            y: (object.position.y - PLAYER_SIZE) as i64,
                        },
                        velocity: Vec2 { x: self.velocity.x, y: 0 },
                        grounded: true,
                        ..self
                    },
                    true,
                )
            } else {
                (self, false)
            },
            Axis::Bottom => if self.velocity.y < 0 {
                (
                    Player {
                        position: Vec2 {
                            x: self.position.x,
                            y: (object.position.y + object.size.y + PLAYER_SIZE) as i64,
                        },
                        velocity: Vec2 { x: self.velocity.x, y: SLIDE_SPEED },
                        wall_sliding: true,
                        ..self
                    },
                    false,
                )
            } else {
                (self, false)
            },
            Axis::Left => if self.velocity.x > 0 {
                (
                    Player {
                        position: Vec2 {
                            x: (object.position.x - PLAYER_SIZE) as i64,
                            y: self.position.y,
                        },
                        velocity: Vec2 { x: 0, y: SLIDE_SPEED },
                        wall_sliding: true,
                        ..self
                    },
                    false,
                )
            } else {
                (self, false)
            },
            Axis::Right => if self.velocity.x < 0 {
                (
                    Player {
                        position: Vec2 {
                            x: (object.position.x + object.size.x + PLAYER_SIZE) as i64,
                            y: self.position.y,
                        },
                        velocity: Vec2 { x: 0, y: SLIDE_SPEED },
                        wall_sliding: true,
                        ..self
                    },
                    false,
                )
            } else {
                (self, false)
            },
        }
    }

    /// A hook attached to the obstacle the player overlaps starts reeling.
    pub open spec fn spec_reel_on_contact(self, object: Object) -> Player {
        if self.grappler.state == GrapplerState::Grappled && spec_point_in_rect(
            self.grappler.grapple_point,
            object.rect(),
        ) {
            Player { grappler: Grappler { state: GrapplerState::Pulling, ..self.grappler }, ..self }
        } else {
            self
        }
    }

    /// The overlap resolution against one obstacle, and whether ground was
    /// touched.
    pub open spec fn spec_resolve(self, object: Object) -> (Player, bool) {
        if self.overlaps_padded(object) {
            let p = self.spec_reel_on_contact(object);
            let axis = p.overlap_axis(object);
            if is_attached(p.grappler.state) {
                p.resolved_attached(object, axis)
            } else {
                p.resolved_free(object, axis)
            }
        } else {
            (self, false)
        }
    }

    /// One obstacle's turn: the look-ahead, then the overlap resolution.
    pub open spec fn spec_update_touch_ground(self, object: Object) -> (Player, bool) {
        self.spec_lookahead(object).spec_resolve(object)
    }

    fn lookahead(&mut self, object: &Object)
        requires
            old(self).wf(),
            object.wf(),
        ensures
            *final(self) == old(self).spec_lookahead(*object),
            final(self).wf(),
    {
        if self.grappler.state != GrapplerState::Idle {
            let px: i128 = self.position.x as i128 + travel(self.velocity.x, PREDICT_MICROS);
            let py: i128 = self.position.y as i128 + travel(self.velocity.y, PREDICT_MICROS);
            let size: i128 = PLAYER_SIZE as i128;
            let right: i128 = object.position.x as i128 + object.size.x as i128;
            let bottom: i128 = object.position.y as i128 + object.size.y as i128;
            if px + size > object.position.x as i128 && px - size < right && py + size
                > object.position.y as i128 && py - size < bottom {
                self.grappler.state = GrapplerState::Idle;
                self.grappler.length = 0;
                self.grappler.release_cooldown = CONTACT_COOLDOWN;
            }
        }
    }

    fn resolve_attached(&mut self, object: &Object, axis: Axis) -> (touched: bool)
        requires
            old(self).wf(),
            object.wf(),
        ensures
            (*final(self), touched) == old(self).resolved_attached(*object, axis),
            final(self).wf(),
    {
        match axis {
            Axis::Top => {
                self.position.y = object.position.y - PLAYER_SIZE;
                if self.velocity.y > 0 {
                    self.velocity.y = 0;
                }
                self.grounded = true;
                true
            },
            Axis::Bottom => {
                self.position.y = object.position.y + object.size.y + PLAYER_SIZE;
                if self.velocity.y < 0 {
                    self.velocity.y = 0;
                }
                false
            },
            Axis::Left => {
                self.position.x = object.position.x - PLAYER_SIZE;
                if self.velocity.x > 0 {
                    self.velocity.x = 0;
                }
                self.wall_sliding = true;
                false
            },
            Axis::Right => {
                self.position.x = object.position.x + object.size.x + PLAYER_SIZE;
                if self.velocity.x < 0 {
                    self.velocity.x = 0;
                }
                self.wall_sliding = true;
                false
            },
        }
    }

    fn resolve_free(&mut self, object: &Object, axis: Axis) -> (touched: bool)
        requires
            old(self).wf(),
            object.wf(),
        ensures
            (*final(self), touched) == old(self).resolved_free(*object, axis),
            final(self).wf(),
    {
        match axis {
            Axis::Top => {
                if self.velocity.y > 0 {
                    self.position.y = object.position.y - PLAYER_SIZE;
                    self.velocity.y = 0;
                    self.grounded = true;
                    return true;
                }
            },
            Axis::Bottom => {
                if self.velocity.y < 0 {
                    self.position.y = object.position.y + object.size.y + PLAYER_SIZE;
                    self.velocity.y = SLIDE_SPEED;
                    self.wall_sliding = true;
                }
            },
            Axis::Left => {
                if self.velocity.x > 0 {
                    self.position.x = object.position.x - PLAYER_SIZE;
                    self.velocity.x = 0;
                    self.velocity.y = SLIDE_SPEED;
                    self.wall_sliding = true;
                }
            },
            Axis::Right => {
                if self.velocity.x < 0 {
                    self.position.x = object.position.x + object.size.x + PLAYER_SIZE;
                    self.velocity.x = 0;
                    self.velocity.y = SLIDE_SPEED;
                    self.wall_sliding = true;
                }
            },
        }
        false
    }

    fn resolve(&mut self, object: &Object) -> (touched: bool)
        requires
            old(self).wf(),
            object.wf(),
        ensures
            (*final(self), touched) == old(self).spec_resolve(*object),
            final(self).wf(),
    {
        let attached_before: bool = self.grappler.state == GrapplerState::Grappled
            || self.grappler.state == GrapplerState::Pulling;
        let padding: i64 = if attached_before { PADDING_ATTACHED } else { PADDING_FREE };
        let object_left: i64 = object.position.x;
        let object_right: i64 = object.position.x + object.size.x;
        let object_top: i64 = object.position.y;
        let object_bottom: i64 = object.position.y + object.size.y;
        let player_left: i64 = self.position.x - PLAYER_SIZE;
        let player_right: i64 = self.position.x + PLAYER_SIZE;
        let player_top: i64 = self.position.y - PLAYER_SIZE;
        let player_bottom: i64 = self.position.y + PLAYER_SIZE;

        if player_right > object_left - padding && player_left < object_right + padding
            && player_bottom > object_top && player_top < object_bottom {
            if self.grappler.state == GrapplerState::Grappled && point_in_rect(
                self.grappler.grapple_point,
                object.get_rect(),
            ) {
                self.grappler.state = GrapplerState::Pulling;
            }
            let axis = resolution_axis(
                player_bottom - object_top,
                object_bottom - player_top,
                player_right - object_left,
                object_right - player_left,
            );
            let attached: bool = self.grappler.state == GrapplerState::Grappled
                || self.grappler.state == GrapplerState::Pulling;
            if attached {
                self.resolve_attached(object, axis)
            } else {
                self.resolve_free(object, axis)
            }
        } else {
            false
        }
    }

    /// Resolves the player against one obstacle and tells whether ground was
    /// touched.
    pub fn update_touch_ground(&mut self, enumerated_object: &Object) -> (touched: bool)
        requires
            old(self).wf(),
            enumerated_object.wf(),
        ensures
            (*final(self), touched) == old(self).spec_update_touch_ground(*enumerated_object),
            final(self).wf(),
    {
        self.lookahead(enumerated_object);
        self.resolve(enumerated_object)
    }
    /// Gravity, then one Euler step, both saturating.
    pub open spec fn spec_integrate(self, dt: u32) -> Player {
        let vy = clamp(
            self.velocity.y + spec_travel(GRAVITY as int, dt as int),
            SPEED_LIMIT as int,
        );
        Player {
            velocity: Vec2 { x: self.velocity.x, y: vy as i64 },
            position: Vec2 {
                x: clamp(
                    self.position.x + spec_travel(self.velocity.x as int, dt as int),
                    WORLD_LIMIT as int,
                ) as i64,
                y: clamp(self.position.y + spec_travel(vy, dt as int), WORLD_LIMIT as int) as i64,
            },
            ..self
        }
    }

    fn integrate(&mut self, delta_time: u32)
        requires
            old(self).wf(),
        ensures
            *final(self) == old(self).spec_integrate(delta_time),
            final(self).wf(),
    {
        let vy: i64 = clamp_to(
            self.velocity.y as i128 + travel(GRAVITY, delta_time),
            SPEED_LIMIT,
        );
        self.velocity.y = vy;
        self.position.x = clamp_to(
            self.position.x as i128 + travel(self.velocity.x, delta_time),
            WORLD_LIMIT,
        );
        self.position.y = clamp_to(self.position.y as i128 + travel(vy, delta_time), WORLD_LIMIT);
    }

    /// The taut rope: the player is put on the circle of radius `length`
    /// round the anchor, along the ray from the anchor through the player,
    /// and loses the part of the velocity that lies along that ray; each
    /// coordinate is rounded to nearest, and both saturate. Nothing changes
    /// when the player stands on the anchor.
    pub open spec fn spec_rope_constraint(self) -> Player {
        let rx = self.position.x - self.grappler.grapple_point.x;
        let ry = self.position.y - self.grappler.grapple_point.y;
        let n = rx * rx + ry * ry;
        if self.position != self.grappler.grapple_point {
            let radial = self.velocity.x * rx + self.velocity.y * ry;
            Player {
                position: Vec2 {
                    x: clamp(
                        self.grappler.grapple_point.x + spec_nearest_over_root(
                            rx,
                            self.grappler.length as int,
                            n,
                        ),
                        WORLD_LIMIT as int,
                    ) as i64,
                    y: clamp(
                        self.grappler.grapple_point.y + spec_nearest_over_root(
                            ry,
                            self.grappler.length as int,
                            n,
                        ),
                        WORLD_LIMIT as int,
                    ) as i64,
                },
                velocity: Vec2 {
                    x: clamp(self.velocity.x - round_div(radial * rx, n), SPEED_LIMIT as int) as i64,
                    y: clamp(self.velocity.y - round_div(radial * ry, n), SPEED_LIMIT as int) as i64,
                },
                ..self
            }
        } else {
            self
        }
    }

    /// Puts the player on the rope's circle and strips the velocity along the
    /// rope.
    pub fn apply_rope_constraint(&mut self)
        requires
            old(self).wf(),
        ensures
            *final(self) == old(self).spec_rope_constraint(),
            final(self).wf(),
    {
        let anchor = self.grappler.grapple_point;
        let n: u128 = distance_squared(self.position, anchor);
        proof {
            lemma_dist_sq_positive(self.position, anchor);
        }
        if self.position.x != anchor.x || self.position.y != anchor.y {
            let rx: i64 = self.position.x - anchor.x;
            let ry: i64 = self.position.y - anchor.y;
            proof {
                lemma_dist_sq_bound(self.position, anchor);
                assert(rx * rx >= 0) by (nonlinear_arith);
                assert(ry * ry >= 0) by (nonlinear_arith);
                lemma_product_bound(
                    self.velocity.x as int,
                    rx as int,
                    1_000_000_000_000,
                    2_000_000_000_000,
                );
                lemma_product_bound(
                    self.velocity.y as int,
                    ry as int,
                    1_000_000_000_000,
                    2_000_000_000_000,
                );
            }
            let radial: i128 = mul_wide(self.velocity.x, rx) + mul_wide(self.velocity.y, ry);
            let px: i128 = nearest_over_root(rx, self.grappler.length, n);
            let py: i128 = nearest_over_root(ry, self.grappler.length, n);
            proof {
                lemma_product_bound(
                    radial as int,
                    rx as int,
                    4_000_000_000_000_000_000_000_000,
                    2_000_000_000_000,
                );
                lemma_product_bound(
                    radial as int,
                    ry as int,
                    4_000_000_000_000_000_000_000_000,
                    2_000_000_000_000,
                );
            }
            let vx: i128 = div_round(mul_big(radial, rx as i128), n as i128);
            let vy: i128 = div_round(mul_big(radial, ry as i128), n as i128);
            self.position.x = clamp_to(anchor.x as i128 + px, WORLD_LIMIT);
            self.position.y = clamp_to(anchor.y as i128 + py, WORLD_LIMIT);
            self.velocity.x = clamp_to(self.velocity.x as i128 - vx, SPEED_LIMIT);
            self.velocity.y = clamp_to(self.velocity.y as i128 - vy, SPEED_LIMIT);
        }
    }

    /// Both velocity components after one tick of damping.
    pub open spec fn spec_damp(self) -> Player {
        Player {
            velocity: Vec2 {
                x: spec_damped(self.velocity.x as int) as i64,
                y: spec_damped(self.velocity.y as int) as i64,
            },
            ..self
        }
    }

    fn damp(&mut self)
        requires
            old(self).wf(),
        ensures
            *final(self) == old(self).spec_damp(),
            final(self).wf(),
    {
        proof {
            lemma_round_div_bound(self.velocity.x * 99, 100, abs(self.velocity.x as int));
            lemma_round_div_bound(self.velocity.y * 99, 100, abs(self.velocity.y as int));
        }
        self.velocity.x = div_round(self.velocity.x as i128 * 99, 100) as i64;
        self.velocity.y = div_round(self.velocity.y as i128 * 99, 100) as i64;
    }

    /// The rope of a reeling hook after `dt` microseconds.
    pub open spec fn spec_reeled_length(self, dt: u32) -> int {
        let shorter = self.grappler.length - spec_travel(REEL_IN_SPEED as int, dt as int);
        if shorter > 0 { shorter } else { 0 }
    }

    /// A reeling tick: integrate, shorten the rope, constrain; a rope that
    /// reached zero puts the player on the anchor at rest with an idle hook;
    /// then damp.
    pub open spec fn spec_reel(self, dt: u32) -> Player {
        let moved = self.spec_integrate(dt);
        let held = Player {
            grappler: Grappler { length: self.spec_reeled_length(dt) as i64, ..moved.grappler },
            ..moved
        }.spec_rope_constraint();
        let landed = if held.grappler.length == 0 {
            Player {
                position: held.grappler.grapple_point,
                velocity: Vec2 { x: 0, y: 0 },
                grappler: Grappler { state: GrapplerState::Idle, ..held.grappler },
                ..held
            }
        } else {
            held
        };
        landed.spec_damp()
    }

    fn reel(&mut self, delta_time: u32)
        requires
            old(self).wf(),
            old(self).grappler.state == GrapplerState::Pulling,
        ensures
            *final(self) == old(self).spec_reel(delta_time),
            final(self).wf(),
            final(self).grappler.state == GrapplerState::Pulling ==> final(self).grappler.length > 0,
            final(self).grappler.position == old(self).grappler.position,
    {
        self.integrate(delta_time);
        let shorter: i128 = self.grappler.length as i128 - travel(REEL_IN_SPEED, delta_time);
        self.grappler.length = if shorter > 0 { shorter as i64 } else { 0 };
        self.apply_rope_constraint();
        if self.grappler.length == 0 {
            self.position = self.grappler.grapple_point;
            self.velocity = Vec2::zero();
            self.grappler.state = GrapplerState::Idle;
        }
        self.damp();
    }

    /// One tick of the body: the hook follows the player, the contact flags
    /// are cleared, and unless the player is respawning the body moves as
    /// the hook's state asks.
    pub open spec fn spec_update(self, dt: u32, is_respawning: bool) -> Player {
        let start = Player {
            grappler: Grappler { position: self.position, ..self.grappler },
            grounded: false,
            wall_sliding: false,
            ..self
        };
        if is_respawning {
            start
        } else {
            match start.grappler.state {
                GrapplerState::Pulling => start.spec_reel(dt),
                GrapplerState::Grappled => start.spec_integrate(dt).spec_rope_constraint().spec_damp(),
                _ => start.spec_integrate(dt),
            }
        }
    }

    /// Advances the body by `delta_time` microseconds and tells whether the
    /// player has fallen out of the world.
    pub fn update(&mut self, delta_time: u32, is_respawning: bool) -> (update_state: UpdateState)
        requires
            old(self).wf(),
        ensures
            *final(self) == old(self).spec_update(delta_time, is_respawning),
            update_state.fell == final(self).spec_has_fallen(),
            final(self).wf(),
            !is_respawning && final(self).grappler.state == GrapplerState::Pulling
                ==> final(self).grappler.length > 0,
    {
        self.grappler.position = self.position;
        self.grounded = false;
        self.wall_sliding = false;
        if !is_respawning {
            match self.grappler.state {
                GrapplerState::Pulling => {
                    self.reel(delta_time);
                },
                GrapplerState::Grappled => {
                    self.integrate(delta_time);
                    self.apply_rope_constraint();
                    self.damp();
                },
                _ => {
                    self.integrate(delta_time);
                },
            }
        }
        UpdateState { fell: self.has_fallen() }
    }

    /// The tool after the selection keys; putting the grapple away lets the
    /// hook go.
    pub open spec fn spec_select_tool(self, events: InputEvents) -> Player {
        if events.select_grapple {
            Player { current_tool: PlayerTool::Grapple, ..self }
        } else if events.select_flashlight {
            Player {
                current_tool: PlayerTool::Flashlight,
                grappler: Grappler { state: GrapplerState::Idle, length: 0, ..self.grappler },
                ..self
            }
        } else {
            self
        }
    }

    /// The flashlight, when held, points from the player at the pointer.
    pub open spec fn spec_aim(self, pointer: Vec2) -> Player {
        if self.current_tool == PlayerTool::Flashlight {
            Player {
                flashlight_direction: spec_normalized(
                    Vec2 {
                        x: (pointer.x - self.position.x) as i64,
                        y: (pointer.y - self.position.y) as i64,
                    },
                ),
                ..self
            }
        } else {
            self
        }
    }

    /// The hook's reaction to the trigger: with the grapple in hand and no
    /// cooldown left, a shot sends an idle hook out and makes an attached one
    /// reel; a release lets a reeling one go.
    pub open spec fn spec_trigger(self, events: InputEvents, pointer: Vec2) -> Player {
        if self.current_tool == PlayerTool::Grapple && self.grappler.release_cooldown <= 0 {
            match self.grappler.state {
                GrapplerState::Idle => if events.fire {
                    Player { grappler: self.grappler.spec_fire(self.position, pointer), ..self }
                } else {
                    self
                },
                GrapplerState::Grappled => if events.fire {
                    Player {
                        grappler: Grappler { state: GrapplerState::Pulling, ..self.grappler },
                        ..self
                    }
                } else {
                    self
                },
                GrapplerState::Pulling => if events.release {
                    Player {
                        grappler: Grappler {
                            state: GrapplerState::Idle,
                            length: 0,
                            release_cooldown: RELEASE_COOLDOWN,
                            ..self.grappler
                        },
                        ..self
                    }
                } else {
                    self
                },
                _ => self,
            }
        } else {
            self
        }
    }

    /// The hook's own tick, then the cooldown runs down by `dt`, not below
    /// zero.
    pub open spec fn spec_advance_hook(self, dt: u32, objects: Seq<Object>) -> Player {
        let g = self.grappler.spec_update(dt, objects);
        Player {
            grappler: Grappler {
                release_cooldown: if g.release_cooldown > dt {
                    (g.release_cooldown - dt) as i64
                } else {
                    0
                },
                ..g
            },
            ..self
        }
    }

    /// The velocity after the movement keys: at rest when the hook went idle
    /// during this tick (`before` is its state when the tick began); a jump
    /// from the ground or a wall; a fixed run speed or friction; fast fall
    /// in the air.
    pub open spec fn spec_steer(self, before: GrapplerState, events: InputEvents, dt: u32) -> Player {
        let released = before != GrapplerState::Idle && self.grappler.state == GrapplerState::Idle;
        let vx0 = if released { 0 } else { self.velocity.x as int };
        let vy0 = if released { 0 } else { self.velocity.y as int };
        let vy1 = if events.jump && (self.grounded || self.wall_sliding) { -JUMP_SPEED } else { vy0 };
        let vx = if events.move_left {
            -RUN_SPEED
        } else if events.move_right {
            RUN_SPEED as int
        } else {
            spec_slowed(vx0)
        };
        let vy = if events.fast_fall && !self.grounded {
            clamp(vy1 + spec_travel(FAST_FALL as int, dt as int), SPEED_LIMIT as int)
        } else {
            vy1
        };
        Player { velocity: Vec2 { x: vx as i64, y: vy as i64 }, ..self }
    }

    /// One tick of input: tool, aim, trigger, the hook's tick, movement.
    pub open spec fn spec_input(
        self,
        dt: u32,
        events: InputEvents,
        objects: Seq<Object>,
        pointer: Vec2,
    ) -> Player {
        self.spec_select_tool(events).spec_aim(pointer).spec_trigger(events, pointer).spec_advance_hook(
            dt,
            objects,
        ).spec_steer(self.grappler.state, events, dt)
    }

    fn select_tool(&mut self, events: InputEvents)
        requires
            old(self).wf(),
        ensures
            *final(self) == old(self).spec_select_tool(events),
            final(self).wf(),
    {
        if events.select_grapple {
            self.current_tool = PlayerTool::Grapple;
        } else if events.select_flashlight {
            self.current_tool = PlayerTool::Flashlight;
            self.grappler.state = GrapplerState::Idle;
            self.grappler.length = 0;
        }
    }

    fn aim(&mut self, pointer: Vec2)
        requires
            old(self).wf(),
            pointer.within(POINT_LIMIT as int),
        ensures
            *final(self) == old(self).spec_aim(pointer),
            final(self).wf(),
    {
        if self.current_tool == PlayerTool::Flashlight {
            self.flashlight_direction = direction_between(self.position, pointer);
        }
    }

    fn trigger(&mut self, events: InputEvents, pointer: Vec2)
        requires
            old(self).wf(),
            pointer.within(POINT_LIMIT as int),
        ensures
            *final(self) == old(self).spec_trigger(events, pointer),
            final(self).wf(),
    {
        if self.current_tool == PlayerTool::Grapple && self.grappler.release_cooldown <= 0 {
            match self.grappler.state {
                GrapplerState::Idle => {
                    if events.fire {
                        self.grappler.fire(self.position, pointer);
                    }
                },
                GrapplerState::Grappled => {
                    if events.fire {
                        self.grappler.state = GrapplerState::Pulling;
                    }
                },
                GrapplerState::Pulling => {
                    if events.release {
                        self.grappler.state = GrapplerState::Idle;
                        self.grappler.length = 0;
                        self.grappler.release_cooldown = RELEASE_COOLDOWN;
                    }
                },
                _ => {},
            }
        }
    }

    fn advance_hook(&mut self, delta_time: u32, objects: &[Object])
        requires
            old(self).wf(),
            all_wf(objects@),
        ensures
            *final(self) == old(self).spec_advance_hook(delta_time, objects@),
            final(self).wf(),
            final(self).grappler.state == GrapplerState::Retracting ==> final(self).grappler.length
                > 0,
    {
        self.grappler.update(delta_time, objects);
        if self.grappler.release_cooldown > delta_time as i64 {
            self.grappler.release_cooldown = self.grappler.release_cooldown - delta_time as i64;
        } else {
            self.grappler.release_cooldown = 0;
        }
    }

    fn steer(&mut self, before: GrapplerState, events: InputEvents, delta_time: u32)
        requires
            old(self).wf(),
        ensures
            *final(self) == old(self).spec_steer(before, events, delta_time),
            final(self).wf(),
    {
        if before != GrapplerState::Idle && self.grappler.state == GrapplerState::Idle {
            self.velocity = Vec2::zero();
        }
        if events.jump && (self.grounded || self.wall_sliding) {
            self.velocity.y = -JUMP_SPEED;
        }
        if events.move_left {
            self.velocity.x = -RUN_SPEED;
        } else if events.move_right {
            self.velocity.x = RUN_SPEED;
        } else {
            self.velocity.x = div_trunc(self.velocity.x as i128 * 4, 5) as i64;
        }
        if events.fast_fall && !self.grounded {
            self.velocity.y = clamp_to(
                self.velocity.y as i128 + travel(FAST_FALL, delta_time),
                SPEED_LIMIT,
            );
        }
    }

    /// Applies one tick of decoded input, and advances the hook by `delta_time`
    /// microseconds among `objects`; `mouse_pos` is the pointer in world
    /// coordinates.
    pub fn input(&mut self, delta_time: u32, events: InputEvents, objects: &[Object], mouse_pos: Vec2)
        requires
            old(self).wf(),
            all_wf(objects@),
            mouse_pos.within(POINT_LIMIT as int),
        ensures
            *final(self) == old(self).spec_input(delta_time, events, objects@, mouse_pos),
            final(self).wf(),
            final(self).grappler.state == GrapplerState::Retracting ==> final(self).grappler.length
                > 0,
    {
        let prev_grapple_state = self.grappler.state;
        self.select_tool(events);
        self.aim(mouse_pos);
        self.trigger(events, mouse_pos);
        self.advance_hook(delta_time, objects);
        self.steer(prev_grapple_state, events, delta_time);
    }
}

} // verus!

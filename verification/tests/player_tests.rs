use darkswing::geometry::Vec2;
use darkswing::grappler::GrapplerState;
use darkswing::object::Object;
use darkswing::player::{resolution_axis, Axis, InputEvents, Player, PlayerTool};

const TICK: u32 = 16_667;

fn quiet() -> InputEvents {
    InputEvents {
        select_grapple: false,
        select_flashlight: false,
        fire: false,
        release: false,
        jump: false,
        move_left: false,
        move_right: false,
        fast_fall: false,
    }
}

fn ground() -> Object {
    Object::new(Vec2::new(50_000, 100_000), Vec2::new(300_000, 50_000))
}

fn attached_player() -> Player {
    let mut p = Player::new(Vec2::new(600_000, 500_000));
    p.velocity = Vec2::new(50_000, 0);
    p.grappler.state = GrapplerState::Grappled;
    p.grappler.grapple_point = Vec2::new(500_000, 500_000);
    p.grappler.length = 100_000;
    p
}

#[test]
fn new_player_stands_with_an_idle_hook() {
    let p = Player::new(Vec2::new(100_000, 100_000));
    assert_eq!(p.position, Vec2::new(100_000, 100_000));
    assert_eq!(p.velocity, Vec2::new(0, 0));
    assert!(p.grounded);
    assert!(!p.wall_sliding);
    assert_eq!(p.grappler.state, GrapplerState::Idle);
    assert_eq!(p.grappler.position, Vec2::new(100_000, 100_000));
    assert_eq!(p.current_tool, PlayerTool::Grapple);
    assert_eq!(p.flashlight_direction, Vec2::new(0, 0));
}

#[test]
fn free_flight_applies_gravity_then_moves() {
    let mut p = Player::new(Vec2::new(0, 0));
    p.velocity = Vec2::new(60_000, -30_000);
    let out = p.update(100_000, false);
    assert_eq!(p.velocity, Vec2::new(60_000, 20_000));
    assert_eq!(p.position, Vec2::new(6_000, 2_000));
    assert!(!p.grounded);
    assert!(!p.wall_sliding);
    assert!(!out.fell);
    assert_eq!(p.grappler.position, Vec2::new(0, 0));
}

#[test]
fn zero_tick_moves_nothing() {
    for state in [GrapplerState::Idle, GrapplerState::Grappling, GrapplerState::Retracting] {
        let mut p = Player::new(Vec2::new(123_456, -7_890));
        p.velocity = Vec2::new(-33_333, 44_444);
        p.grappler.state = state;
        p.update(0, false);
        assert_eq!(p.position, Vec2::new(123_456, -7_890));
        assert_eq!(p.velocity, Vec2::new(-33_333, 44_444));
    }
}

#[test]
fn zero_tick_on_a_rope_still_damps() {
    let mut p = attached_player();
    p.velocity = Vec2::new(0, 100_000);
    p.update(0, false);
    assert_eq!(p.position, Vec2::new(600_000, 500_000));
    assert_eq!(p.velocity, Vec2::new(0, 99_000));
}

#[test]
fn respawning_player_does_not_move() {
    let mut p = attached_player();
    p.grounded = true;
    p.wall_sliding = true;
    let out = p.update(TICK, true);
    assert_eq!(p.position, Vec2::new(600_000, 500_000));
    assert_eq!(p.velocity, Vec2::new(50_000, 0));
    assert!(!p.grounded);
    assert!(!p.wall_sliding);
    assert_eq!(p.grappler.position, Vec2::new(600_000, 500_000));
    assert!(!out.fell);
}

#[test]
fn fallen_below_the_world() {
    let mut p = Player::new(Vec2::new(0, 1_000_000));
    assert!(!p.has_fallen());
    let out = p.update(TICK, true);
    assert!(!out.fell);
    p.position.y = 1_000_001;
    assert!(p.has_fallen());
    let out = p.update(TICK, true);
    assert!(out.fell);
}

#[test]
fn attached_tick_keeps_the_player_on_the_circle() {
    let mut p = attached_player();
    p.update(TICK, false);
    assert_eq!(p.position, Vec2::new(600_000, 500_137));
    assert_eq!(p.velocity, Vec2::new(-11, 8_182));
    assert_eq!(p.grappler.state, GrapplerState::Grappled);
    assert_eq!(p.grappler.length, 100_000);
    let dx = (p.position.x - 500_000) as f64 / 1000.0;
    let dy = (p.position.y - 500_000) as f64 / 1000.0;
    let dist = (dx * dx + dy * dy).sqrt();
    assert!((dist - 100.0).abs() <= 1e-3);
    let vx = p.velocity.x as f64 / 1000.0;
    let vy = p.velocity.y as f64 / 1000.0;
    let radial = (vx * dx + vy * dy) / dist;
    assert!(radial.abs() <= 1e-3);
}

#[test]
fn rope_constraint_rounds_to_the_nearest_thousandth() {
    let mut p = attached_player();
    p.grappler.grapple_point = Vec2::new(0, 0);
    p.position = Vec2::new(120_640, 123_457);
    p.velocity = Vec2::new(0, 0);
    p.apply_rope_constraint();
    assert_eq!(p.position, Vec2::new(69_890, 71_522));
    let dx = p.position.x as f64 / 1000.0;
    let dy = p.position.y as f64 / 1000.0;
    assert!(((dx * dx + dy * dy).sqrt() - 100.0).abs() <= 1e-3);
    assert_eq!(p.velocity, Vec2::new(0, 0));
    assert_eq!(p.grappler.length, 100_000);
    assert_eq!(p.grappler.state, GrapplerState::Grappled);
}

#[test]
fn zero_tick_on_a_rope_stays_on_the_circle() {
    let mut p = attached_player();
    p.grappler.grapple_point = Vec2::new(0, 0);
    p.position = Vec2::new(120_640, 123_457);
    p.velocity = Vec2::new(0, 0);
    p.update(0, false);
    assert_eq!(p.position, Vec2::new(69_890, 71_522));
    let d2 = p.position.x * p.position.x + p.position.y * p.position.y;
    assert!(99_999 * 99_999 <= d2 && d2 <= 100_001 * 100_001);
}

#[test]
fn stripping_the_radial_part_does_not_lengthen_the_velocity() {
    let mut p = attached_player();
    p.grappler.grapple_point = Vec2::new(0, 0);
    p.position = Vec2::new(-57, 257);
    p.velocity = Vec2::new(-34, -3);
    p.apply_rope_constraint();
    assert_eq!(p.velocity, Vec2::new(-33, -7));
    assert!(33 * 33 + 7 * 7 <= 34 * 34 + 3 * 3);
    // What is left along the old offset is under a thousandth a second.
    let along = p.velocity.x * -57 + p.velocity.y * 257;
    assert!(2 * along * along <= 57 * 57 + 257 * 257);
}

#[test]
fn tangential_velocity_passes_the_rope_constraint() {
    let mut p = attached_player();
    p.velocity = Vec2::new(0, 77_777);
    p.apply_rope_constraint();
    assert_eq!(p.velocity, Vec2::new(0, 77_777));
    assert_eq!(p.position, Vec2::new(600_000, 500_000));
}

#[test]
fn damping_rounds_to_nearest() {
    let mut p = attached_player();
    p.velocity = Vec2::new(-11, 8_265);
    p.update(0, true);
    assert_eq!(p.velocity, Vec2::new(-11, 8_265));
    p.position = Vec2::new(500_000, 600_000);
    p.velocity = Vec2::new(-11, 0);
    p.update(0, false);
    // Across the rope: -11 * 0.99 = -10.89, which rounds to -11.
    assert_eq!(p.velocity.x, -11);
    p.velocity = Vec2::new(150, 0);
    p.update(0, false);
    // 148.5 rounds away from zero.
    assert_eq!(p.velocity.x, 149);
}

#[test]
fn rope_constraint_projects_position_and_velocity() {
    let mut p = attached_player();
    p.position = Vec2::new(500_000, 700_000);
    p.velocity = Vec2::new(40_000, 90_000);
    p.apply_rope_constraint();
    assert_eq!(p.position, Vec2::new(500_000, 600_000));
    assert_eq!(p.velocity, Vec2::new(40_000, 0));
}

#[test]
fn rope_constraint_from_next_to_the_anchor_reaches_the_circle() {
    let mut p = attached_player();
    p.position = Vec2::new(500_001, 500_001);
    p.velocity = Vec2::new(0, 0);
    p.apply_rope_constraint();
    assert_eq!(p.position, Vec2::new(570_711, 570_711));
}

#[test]
fn rope_constraint_is_skipped_on_the_anchor() {
    let mut p = attached_player();
    p.position = p.grappler.grapple_point;
    let before = p;
    p.apply_rope_constraint();
    assert_eq!(p, before);
}

#[test]
fn reeling_in_the_last_of_the_rope_lands_on_the_anchor() {
    let mut p = Player::new(Vec2::new(530_000, 500_000));
    p.velocity = Vec2::new(10_000, -20_000);
    p.grappler.state = GrapplerState::Pulling;
    p.grappler.grapple_point = Vec2::new(500_000, 500_000);
    p.grappler.length = 30_000;
    p.update(50_000, false);
    assert_eq!(p.grappler.length, 0);
    assert_eq!(p.position, Vec2::new(500_000, 500_000));
    assert_eq!(p.velocity, Vec2::new(0, 0));
    assert_eq!(p.grappler.state, GrapplerState::Idle);
}

#[test]
fn reeling_shortens_the_rope() {
    let mut p = Player::new(Vec2::new(600_000, 500_000));
    p.grappler.state = GrapplerState::Pulling;
    p.grappler.grapple_point = Vec2::new(500_000, 500_000);
    p.grappler.length = 100_000;
    p.update(TICK, false);
    assert_eq!(p.grappler.length, 90_000);
    assert_eq!(p.grappler.state, GrapplerState::Pulling);
    let dx = p.position.x - 500_000;
    let dy = p.position.y - 500_000;
    let d2 = dx * dx + dy * dy;
    assert_eq!(p.position, Vec2::new(590_000, 500_124));
    assert!(89_999 * 89_999 <= d2 && d2 <= 90_001 * 90_001);
}

#[test]
fn falling_onto_an_obstacle_grounds_the_player() {
    let mut p = Player::new(Vec2::new(100_000, 95_000));
    p.grounded = false;
    p.velocity = Vec2::new(0, 100_000);
    let touched = p.update_touch_ground(&ground());
    assert!(touched);
    assert!(p.grounded);
    assert!(!p.wall_sliding);
    assert_eq!(p.velocity, Vec2::new(0, 0));
    assert_eq!(p.position, Vec2::new(100_000, 90_000));
}

#[test]
fn rising_through_the_top_edge_is_left_alone() {
    let mut p = Player::new(Vec2::new(100_000, 95_000));
    p.grounded = false;
    p.velocity = Vec2::new(0, -100_000);
    let before = p;
    let touched = p.update_touch_ground(&ground());
    assert!(!touched);
    assert_eq!(p, before);
}

#[test]
fn no_overlap_changes_nothing() {
    let mut p = Player::new(Vec2::new(0, 0));
    p.velocity = Vec2::new(10_000, 10_000);
    let before = p;
    assert!(!p.update_touch_ground(&ground()));
    assert_eq!(p, before);
}

#[test]
fn hitting_the_underside_starts_a_slide() {
    let mut p = Player::new(Vec2::new(100_000, 155_000));
    p.grounded = false;
    p.velocity = Vec2::new(0, -80_000);
    let touched = p.update_touch_ground(&ground());
    assert!(!touched);
    assert_eq!(p.position, Vec2::new(100_000, 160_000));
    assert_eq!(p.velocity, Vec2::new(0, 50_000));
    assert!(p.wall_sliding);
    assert!(!p.grounded);
}

#[test]
fn running_into_a_wall_slides_down_it() {
    let wall = Object::new(Vec2::new(100_000, 0), Vec2::new(50_000, 400_000));
    let mut p = Player::new(Vec2::new(95_000, 200_000));
    p.velocity = Vec2::new(150_000, 0);
    assert!(!p.update_touch_ground(&wall));
    assert_eq!(p.position, Vec2::new(90_000, 200_000));
    assert_eq!(p.velocity, Vec2::new(0, 50_000));
    assert!(p.wall_sliding);

    let mut q = Player::new(Vec2::new(155_000, 200_000));
    q.velocity = Vec2::new(-150_000, 0);
    assert!(!q.update_touch_ground(&wall));
    assert_eq!(q.position, Vec2::new(160_000, 200_000));
    assert_eq!(q.velocity, Vec2::new(0, 50_000));
    assert!(q.wall_sliding);
}

#[test]
fn free_padding_is_ten_units_and_attached_two() {
    let wall = Object::new(Vec2::new(100_000, 0), Vec2::new(50_000, 400_000));
    // The player's right edge is 5 units short of the wall.
    let mut p = Player::new(Vec2::new(85_000, 200_000));
    p.velocity = Vec2::new(150_000, 0);
    assert!(!p.update_touch_ground(&wall));
    assert!(p.wall_sliding);
    assert_eq!(p.position, Vec2::new(90_000, 200_000));

    let mut q = Player::new(Vec2::new(85_000, 200_000));
    q.grappler.state = GrapplerState::Grappled;
    q.grappler.grapple_point = Vec2::new(0, 0);
    q.grappler.length = 50_000;
    let before = q;
    assert!(!q.update_touch_ground(&wall));
    assert_eq!(q, before);
}

#[test]
fn slow_attached_player_lets_go_before_the_resolution() {
    let mut p = Player::new(Vec2::new(100_000, 95_000));
    p.grounded = false;
    p.velocity = Vec2::new(5_000, -50_000);
    p.grappler.state = GrapplerState::Grappled;
    p.grappler.grapple_point = Vec2::new(0, 0);
    p.grappler.length = 50_000;
    // The predicted square still overlaps, so the hook lets go; the free
    // resolution then leaves a rising player alone.
    let touched = p.update_touch_ground(&ground());
    assert_eq!(p.grappler.state, GrapplerState::Idle);
    assert_eq!(p.grappler.length, 0);
    assert_eq!(p.grappler.release_cooldown, 100_000);
    assert!(!touched);
    assert!(!p.grounded);
    assert_eq!(p.position, Vec2::new(100_000, 95_000));
    assert_eq!(p.velocity, Vec2::new(5_000, -50_000));
}

#[test]
fn attached_resolution_on_top_grounds_and_keeps_upward_speed() {
    let mut p = Player::new(Vec2::new(100_000, 95_000));
    // Fast enough upward for the predicted square to clear the obstacle.
    p.velocity = Vec2::new(0, -400_000);
    p.grappler.state = GrapplerState::Grappled;
    p.grappler.grapple_point = Vec2::new(0, 0);
    p.grappler.length = 50_000;
    let touched = p.update_touch_ground(&ground());
    assert!(touched);
    assert!(p.grounded);
    assert_eq!(p.position, Vec2::new(100_000, 90_000));
    assert_eq!(p.velocity, Vec2::new(0, -400_000));
    assert_eq!(p.grappler.state, GrapplerState::Grappled);
}

#[test]
fn anchor_inside_the_touched_obstacle_starts_reeling() {
    let mut p = Player::new(Vec2::new(100_000, 95_000));
    p.velocity = Vec2::new(0, -400_000);
    p.grappler.state = GrapplerState::Grappled;
    p.grappler.grapple_point = Vec2::new(50_000, 100_000);
    p.grappler.length = 50_000;
    assert!(p.update_touch_ground(&ground()));
    assert_eq!(p.grappler.state, GrapplerState::Pulling);
}

#[test]
fn imminent_overlap_lets_the_hook_go() {
    let mut p = Player::new(Vec2::new(100_000, 60_000));
    p.velocity = Vec2::new(0, 700_000);
    p.grappler.state = GrapplerState::Grappling;
    p.grappler.length = 120_000;
    let touched = p.update_touch_ground(&ground());
    assert!(!touched);
    assert_eq!(p.grappler.state, GrapplerState::Idle);
    assert_eq!(p.grappler.length, 0);
    assert_eq!(p.grappler.release_cooldown, 100_000);
    assert_eq!(p.position, Vec2::new(100_000, 60_000));
}

#[test]
fn equal_depths_resolve_top_first() {
    assert_eq!(resolution_axis(5, 5, 5, 5), Axis::Top);
    assert_eq!(resolution_axis(6, 5, 5, 5), Axis::Bottom);
    assert_eq!(resolution_axis(6, 6, 5, 5), Axis::Left);
    assert_eq!(resolution_axis(6, 6, 6, 5), Axis::Right);
    assert_eq!(resolution_axis(1, 2, 3, 4), Axis::Top);
    assert_eq!(resolution_axis(4, 3, 2, 1), Axis::Right);
    assert_eq!(resolution_axis(3, 1, 1, 2), Axis::Bottom);
}

#[test]
fn corner_overlap_with_equal_depths_resolves_on_top() {
    let block = Object::new(Vec2::new(100_000, 100_000), Vec2::new(200_000, 200_000));
    let mut p = Player::new(Vec2::new(95_000, 95_000));
    p.velocity = Vec2::new(20_000, 20_000);
    assert!(p.update_touch_ground(&block));
    assert!(p.grounded);
    assert!(!p.wall_sliding);
    assert_eq!(p.position, Vec2::new(95_000, 90_000));
    assert_eq!(p.velocity, Vec2::new(20_000, 0));
}

#[test]
fn shot_then_ticks_attach_the_player() {
    let objects = [Object::new(Vec2::new(200_000, -50_000), Vec2::new(50_000, 100_000))];
    let mut p = Player::new(Vec2::new(0, 0));
    let mut events = quiet();
    events.fire = true;
    p.input(TICK, events, &objects, Vec2::new(1_000_000, 0));
    assert_eq!(p.grappler.state, GrapplerState::Grappling);
    assert_eq!(p.grappler.length, 20_000);
    assert_eq!(p.grappler.grapple_direction, Vec2::new(1_000_000, 0));
    for _ in 0..9 {
        p.input(TICK, quiet(), &objects, Vec2::new(1_000_000, 0));
    }
    assert_eq!(p.grappler.state, GrapplerState::Grappled);
    assert_eq!(p.grappler.length, 200_000);
    p.input(TICK, events, &objects, Vec2::new(1_000_000, 0));
    assert_eq!(p.grappler.state, GrapplerState::Pulling);
    let mut release = quiet();
    release.release = true;
    p.input(TICK, release, &objects, Vec2::new(1_000_000, 0));
    assert_eq!(p.grappler.state, GrapplerState::Idle);
    assert_eq!(p.grappler.length, 0);
    assert_eq!(p.grappler.release_cooldown, 200_000 - 16_667);
    assert_eq!(p.velocity, Vec2::new(0, 0));
}

#[test]
fn cooldown_refuses_a_shot_and_runs_down() {
    let mut p = Player::new(Vec2::new(0, 0));
    p.grappler.release_cooldown = 20_000;
    let mut events = quiet();
    events.fire = true;
    p.input(TICK, events, &[], Vec2::new(100_000, 0));
    assert_eq!(p.grappler.state, GrapplerState::Idle);
    assert_eq!(p.grappler.release_cooldown, 3_333);
    p.input(TICK, events, &[], Vec2::new(100_000, 0));
    assert_eq!(p.grappler.state, GrapplerState::Idle);
    assert_eq!(p.grappler.release_cooldown, 0);
    p.input(TICK, events, &[], Vec2::new(100_000, 0));
    assert_eq!(p.grappler.state, GrapplerState::Grappling);
}

#[test]
fn switching_to_the_flashlight_lets_the_hook_go_and_aims() {
    let mut p = Player::new(Vec2::new(0, 0));
    p.velocity = Vec2::new(100_000, 40_000);
    p.grappler.state = GrapplerState::Grappled;
    p.grappler.length = 70_000;
    let mut events = quiet();
    events.select_flashlight = true;
    p.input(TICK, events, &[], Vec2::new(0, -5_000));
    assert_eq!(p.current_tool, PlayerTool::Flashlight);
    assert_eq!(p.grappler.state, GrapplerState::Idle);
    assert_eq!(p.grappler.length, 0);
    assert_eq!(p.flashlight_direction, Vec2::new(0, -1_000_000));
    assert_eq!(p.velocity, Vec2::new(0, 0));
    let mut fire = quiet();
    fire.fire = true;
    p.input(TICK, fire, &[], Vec2::new(100_000, 0));
    assert_eq!(p.grappler.state, GrapplerState::Idle);
    let mut back = quiet();
    back.select_grapple = true;
    back.select_flashlight = true;
    p.input(TICK, back, &[], Vec2::new(100_000, 0));
    assert_eq!(p.current_tool, PlayerTool::Grapple);
}

#[test]
fn movement_keys_set_the_velocity() {
    let mut p = Player::new(Vec2::new(0, 0));
    p.velocity = Vec2::new(100_000, 7);
    p.grounded = false;
    p.input(TICK, quiet(), &[], Vec2::new(0, 0));
    assert_eq!(p.velocity, Vec2::new(80_000, 7));
    let mut left = quiet();
    left.move_left = true;
    left.move_right = true;
    p.input(TICK, left, &[], Vec2::new(0, 0));
    assert_eq!(p.velocity.x, -150_000);
    let mut right = quiet();
    right.move_right = true;
    p.input(TICK, right, &[], Vec2::new(0, 0));
    assert_eq!(p.velocity.x, 150_000);
    p.velocity = Vec2::new(-9, 0);
    p.input(TICK, quiet(), &[], Vec2::new(0, 0));
    assert_eq!(p.velocity.x, -7);
}

#[test]
fn jump_needs_ground_or_wall() {
    let mut jump = quiet();
    jump.jump = true;
    let mut p = Player::new(Vec2::new(0, 0));
    p.input(TICK, jump, &[], Vec2::new(0, 0));
    assert_eq!(p.velocity.y, -300_000);
    let mut q = Player::new(Vec2::new(0, 0));
    q.grounded = false;
    q.wall_sliding = true;
    q.input(TICK, jump, &[], Vec2::new(0, 0));
    assert_eq!(q.velocity.y, -300_000);
    let mut r = Player::new(Vec2::new(0, 0));
    r.grounded = false;
    r.velocity.y = 5;
    r.input(TICK, jump, &[], Vec2::new(0, 0));
    assert_eq!(r.velocity.y, 5);
}

#[test]
fn fast_fall_only_in_the_air() {
    let mut fall = quiet();
    fall.fast_fall = true;
    let mut p = Player::new(Vec2::new(0, 0));
    p.grounded = false;
    p.input(100_000, fall, &[], Vec2::new(0, 0));
    assert_eq!(p.velocity.y, 20_000);
    let mut q = Player::new(Vec2::new(0, 0));
    q.input(100_000, fall, &[], Vec2::new(0, 0));
    assert_eq!(q.velocity.y, 0);
}

#[test]
fn position_and_speed_saturate() {
    let mut p = Player::new(Vec2::new(1_000_000_000_000, -1_000_000_000_000));
    p.velocity = Vec2::new(1_000_000_000_000, 1_000_000_000_000);
    p.update(u32::MAX, false);
    assert_eq!(p.velocity, Vec2::new(1_000_000_000_000, 1_000_000_000_000));
    assert_eq!(p.position, Vec2::new(1_000_000_000_000, 1_000_000_000_000));
}

fn check_hook(p: &Player) {
    let g = &p.grappler;
    assert!(g.length >= 0);
    assert!(0 <= g.release_cooldown && g.release_cooldown <= 200_000);
    if g.state == GrapplerState::Idle {
        assert_eq!(g.length, 0);
    }
    if g.state == GrapplerState::Grappling || g.state == GrapplerState::Retracting {
        assert!(g.length <= 400_000);
    }
}

#[test]
fn rope_bounds_hold_along_a_run() {
    let objects = [
        Object::new(Vec2::new(50_000, 400_000), Vec2::new(300_000, 50_000)),
        Object::new(Vec2::new(300_000, 300_000), Vec2::new(150_000, 20_000)),
        Object::new(Vec2::new(-200_000, -100_000), Vec2::new(30_000, 30_000)),
    ];
    let targets = [
        Vec2::new(375_000, 300_000),
        Vec2::new(-185_000, -85_000),
        Vec2::new(100_000, -900_000),
        Vec2::new(100_000, 100_000),
    ];
    let mut p = Player::new(Vec2::new(100_000, 100_000));
    let mut attached = 0;
    let mut missed = 0;
    for tick in 0..2_000u32 {
        let mut events = quiet();
        events.fire = tick % 7 == 0;
        events.release = tick % 11 == 0;
        events.jump = tick % 13 == 0;
        events.move_left = tick % 50 < 10;
        events.move_right = tick % 50 >= 30;
        events.fast_fall = tick % 17 == 0;
        events.select_flashlight = tick % 400 == 399;
        events.select_grapple = tick % 400 == 20;
        let dt = if tick % 97 == 0 { 0 } else { 16_667 };
        let before = p.grappler;
        p.input(dt, events, &objects, targets[(tick / 100) as usize % targets.len()]);
        check_hook(&p);
        if p.grappler.state == GrapplerState::Retracting {
            assert!(p.grappler.length > 0);
            missed += 1;
        }
        if before.state == GrapplerState::Grappled || before.state == GrapplerState::Pulling {
            assert!(p.grappler.length <= before.length);
        }
        let rope = p.grappler.length;
        let out = p.update(dt, false);
        check_hook(&p);
        assert!(p.grappler.length <= rope);
        if p.grappler.state == GrapplerState::Pulling {
            assert!(p.grappler.length > 0);
        }
        if p.grappler.state == GrapplerState::Grappled {
            attached += 1;
        }
        for object in objects.iter() {
            let rope = p.grappler.length;
            p.update_touch_ground(object);
            check_hook(&p);
            assert!(p.grappler.length <= rope);
        }
        if out.fell {
            p.position = Vec2::new(100_000, 100_000);
            p.velocity = Vec2::new(0, 0);
        }
    }
    assert!(attached > 0);
    assert!(missed > 0);
}

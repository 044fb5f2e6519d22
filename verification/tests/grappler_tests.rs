use darkswing::geometry::{Rect, Vec2};
use darkswing::grappler::{
    get_collision_point, point_in_rect, snap_to_corner_if_close, travel, Grappler, GrapplerState,
    ROPE_LENGTH,
};
use darkswing::object::Object;

const TICK: u32 = 16_667;

fn wall(x: i64) -> Object {
    Object::new(Vec2::new(x, -50_000), Vec2::new(50_000, 100_000))
}

#[test]
fn point_on_the_edge_is_inside() {
    let rect = Rect { x: 0, y: 0, width: 10, height: 10 };
    assert!(point_in_rect(Vec2::new(10, 0), rect));
    assert!(!point_in_rect(Vec2::new(11, 0), rect));
}

#[test]
fn new_hook_is_idle_with_no_rope() {
    let g = Grappler::new(Vec2::new(5, 6));
    assert_eq!(g.state, GrapplerState::Idle);
    assert_eq!(g.length, 0);
    assert_eq!(g.position, Vec2::new(5, 6));
    assert_eq!(g.grapple_point, Vec2::new(0, 0));
    assert_eq!(g.grapple_direction, Vec2::new(0, 0));
    assert_eq!(g.release_cooldown, 0);
}

#[test]
fn travel_is_speed_times_time() {
    assert_eq!(travel(1_200_000, TICK), 20_000);
    assert_eq!(travel(600_000, 50_000), 30_000);
    assert_eq!(travel(-1_200_000, TICK), -20_000);
    assert_eq!(travel(1_200_000, 0), 0);
    assert_eq!(travel(1, 999_999), 0);
}

#[test]
fn fire_from_idle_starts_extending() {
    let mut g = Grappler::new(Vec2::new(0, 0));
    g.fire(Vec2::new(100_000, 100_000), Vec2::new(400_000, 500_000));
    assert_eq!(g.state, GrapplerState::Grappling);
    assert_eq!(g.length, 0);
    assert_eq!(g.position, Vec2::new(100_000, 100_000));
    assert_eq!(g.grapple_direction, Vec2::new(600_000, 800_000));
}

#[test]
fn fire_at_own_position_points_right() {
    let mut g = Grappler::new(Vec2::new(0, 0));
    g.fire(Vec2::new(7, 7), Vec2::new(7, 7));
    assert_eq!(g.state, GrapplerState::Grappling);
    assert_eq!(g.grapple_direction, Vec2::new(1_000_000, 0));
}

#[test]
fn fire_while_busy_changes_nothing() {
    let mut g = Grappler::new(Vec2::new(0, 0));
    g.fire(Vec2::new(0, 0), Vec2::new(100_000, 0));
    g.update(TICK, &[]);
    let before = g;
    g.fire(Vec2::new(9, 9), Vec2::new(0, 100_000));
    assert_eq!(g, before);
    for state in [GrapplerState::Retracting, GrapplerState::Grappled, GrapplerState::Pulling] {
        let mut h = before;
        h.state = state;
        let held = h;
        h.fire(Vec2::new(9, 9), Vec2::new(0, 100_000));
        assert_eq!(h, held);
    }
}

#[test]
fn miss_extends_retracts_and_cools_down() {
    let mut g = Grappler::new(Vec2::new(100_000, 100_000));
    g.fire(Vec2::new(100_000, 100_000), Vec2::new(1_000_000, 100_000));
    let mut ticks = 0;
    while g.state == GrapplerState::Grappling {
        assert!(g.length < ROPE_LENGTH);
        g.update(TICK, &[]);
        ticks += 1;
        assert!(ticks <= 20);
    }
    assert_eq!(ticks, 20);
    assert_eq!(g.state, GrapplerState::Retracting);
    assert_eq!(g.length, 400_000);
    let mut back = 0;
    while g.state == GrapplerState::Retracting {
        assert!(g.length > 0);
        g.update(TICK, &[]);
        back += 1;
        assert!(back <= 20);
    }
    assert_eq!(back, 20);
    assert_eq!(g.state, GrapplerState::Idle);
    assert_eq!(g.length, 0);
    assert_eq!(g.release_cooldown, 200_000);
}

#[test]
fn overshoot_is_cut_to_the_longest_rope() {
    let mut g = Grappler::new(Vec2::new(0, 0));
    g.fire(Vec2::new(0, 0), Vec2::new(0, -10));
    g.update(1_000_000, &[]);
    assert_eq!(g.state, GrapplerState::Retracting);
    assert_eq!(g.length, 400_000);
}

#[test]
fn hit_after_ten_ticks_attaches_at_the_face() {
    let objects = [wall(200_000)];
    let mut g = Grappler::new(Vec2::new(0, 0));
    g.fire(Vec2::new(0, 0), Vec2::new(1_000_000, 0));
    for k in 1..10 {
        g.update(TICK, &objects);
        assert_eq!(g.state, GrapplerState::Grappling);
        assert_eq!(g.length, 20_000 * k);
    }
    g.update(TICK, &objects);
    assert_eq!(g.state, GrapplerState::Grappled);
    assert_eq!(g.grapple_point, Vec2::new(200_000, 0));
    assert_eq!(g.length, 200_000);
}

#[test]
fn attached_length_is_measured_not_extended() {
    let objects = [wall(195_000)];
    let mut g = Grappler::new(Vec2::new(0, 0));
    g.fire(Vec2::new(0, 0), Vec2::new(1_000_000, 0));
    for _ in 0..9 {
        g.update(TICK, &objects);
    }
    assert_eq!(g.state, GrapplerState::Grappling);
    g.update(TICK, &objects);
    assert_eq!(g.state, GrapplerState::Grappled);
    assert_eq!(g.grapple_point, Vec2::new(195_000, 0));
    assert_eq!(g.length, 195_000);
}

#[test]
fn attached_and_reeling_hooks_ignore_their_own_tick() {
    for state in [GrapplerState::Idle, GrapplerState::Grappled, GrapplerState::Pulling] {
        let mut g = Grappler::new(Vec2::new(0, 0));
        g.state = state;
        if state != GrapplerState::Idle {
            g.length = 50_000;
        }
        let before = g;
        g.update(TICK, &[wall(0)]);
        assert_eq!(g, before);
    }
}

#[test]
fn cast_of_no_length_hits_nothing() {
    let p = Vec2::new(10_000, 0);
    assert_eq!(get_collision_point(p, p, &[wall(0)]), None);
}

#[test]
fn cast_without_obstacles_hits_nothing() {
    assert_eq!(get_collision_point(Vec2::new(0, 0), Vec2::new(100_000, 0), &[]), None);
}

#[test]
fn cast_reports_the_first_sample_inside() {
    let hit = get_collision_point(Vec2::new(0, 0), Vec2::new(100_000, 0), &[wall(42_000)]);
    assert_eq!(hit, Some(Vec2::new(45_000, 0)));
}

#[test]
fn cast_samples_the_start_point() {
    let hit = get_collision_point(Vec2::new(10_000, 0), Vec2::new(100_000, 0), &[wall(0)]);
    assert_eq!(hit, Some(Vec2::new(10_000, 0)));
}

#[test]
fn cast_stops_at_the_last_whole_step() {
    // Samples lie at 0, 5, 10 units; the segment ends at 14 units.
    let hit = get_collision_point(Vec2::new(0, 0), Vec2::new(14_000, 0), &[wall(12_000)]);
    assert_eq!(hit, None);
    let hit = get_collision_point(Vec2::new(0, 0), Vec2::new(15_000, 0), &[wall(12_000)]);
    assert_eq!(hit, Some(Vec2::new(15_000, 0)));
}

#[test]
fn earlier_obstacle_wins_over_nearer_one() {
    let far = wall(300_000);
    let near = wall(100_000);
    let hit = get_collision_point(Vec2::new(0, 0), Vec2::new(400_000, 0), &[far, near]);
    assert_eq!(hit, Some(Vec2::new(300_000, 0)));
    let hit = get_collision_point(Vec2::new(0, 0), Vec2::new(400_000, 0), &[near, far]);
    assert_eq!(hit, Some(Vec2::new(100_000, 0)));
}

#[test]
fn cast_along_a_diagonal() {
    let block = Object::new(Vec2::new(30_000, 40_000), Vec2::new(100_000, 100_000));
    let hit = get_collision_point(Vec2::new(0, 0), Vec2::new(60_000, 80_000), &[block]);
    // The sample at 50 units lies at (30, 40), the block's top-left corner.
    assert_eq!(hit, Some(Vec2::new(30_000, 40_000)));
}

#[test]
fn cast_snaps_a_hit_near_a_corner() {
    let block = Object::new(Vec2::new(100_000, -10_000), Vec2::new(100_000, 100_000));
    let hit = get_collision_point(Vec2::new(0, 0), Vec2::new(200_000, 0), &[block]);
    assert_eq!(hit, Some(Vec2::new(100_000, -10_000)));
}

#[test]
fn snap_within_twenty_units_of_a_top_corner() {
    let rect = Rect { x: 0, y: 0, width: 100_000, height: 50_000 };
    assert_eq!(snap_to_corner_if_close(Vec2::new(20_000, 0), rect), Vec2::new(0, 0));
    assert_eq!(snap_to_corner_if_close(Vec2::new(12_000, 16_000), rect), Vec2::new(0, 0));
    assert_eq!(snap_to_corner_if_close(Vec2::new(90_000, 10_000), rect), Vec2::new(100_000, 0));
    assert_eq!(snap_to_corner_if_close(Vec2::new(80_000, 0), rect), Vec2::new(100_000, 0));
}

#[test]
fn no_snap_at_twenty_one_units() {
    let rect = Rect { x: 0, y: 0, width: 100_000, height: 50_000 };
    assert_eq!(snap_to_corner_if_close(Vec2::new(21_000, 0), rect), Vec2::new(21_000, 0));
    assert_eq!(snap_to_corner_if_close(Vec2::new(20_001, 0), rect), Vec2::new(20_001, 0));
    assert_eq!(snap_to_corner_if_close(Vec2::new(79_000, 0), rect), Vec2::new(79_000, 0));
    assert_eq!(snap_to_corner_if_close(Vec2::new(0, 50_000), rect), Vec2::new(0, 50_000));
}

#[test]
fn snap_prefers_the_left_corner() {
    let rect = Rect { x: 0, y: 0, width: 30_000, height: 50_000 };
    assert_eq!(snap_to_corner_if_close(Vec2::new(15_000, 0), rect), Vec2::new(0, 0));
}

#[test]
fn late_hit_attaches_beyond_the_longest_rope() {
    let objects = [wall(410_000)];
    let mut g = Grappler::new(Vec2::new(0, 0));
    g.fire(Vec2::new(0, 0), Vec2::new(1_000_000, 0));
    g.length = 395_000;
    g.update(TICK, &objects);
    assert_eq!(g.state, GrapplerState::Grappled);
    assert_eq!(g.grapple_point, Vec2::new(410_000, 0));
    assert_eq!(g.length, 410_000);
    assert!(g.length <= 395_000 + 20_000 + 20_000);
}

#[test]
fn snapped_hit_measures_to_the_corner() {
    let block = Object::new(Vec2::new(100_000, -10_000), Vec2::new(100_000, 100_000));
    let mut g = Grappler::new(Vec2::new(0, 0));
    g.fire(Vec2::new(0, 0), Vec2::new(1_000_000, 0));
    for _ in 0..5 {
        g.update(TICK, &[block]);
    }
    assert_eq!(g.state, GrapplerState::Grappled);
    assert_eq!(g.grapple_point, Vec2::new(100_000, -10_000));
    // The rounded-down length of (100, -10): 100.498 units.
    assert_eq!(g.length, 100_498);
    assert!(g.length <= 100_000 + 20_000);
}

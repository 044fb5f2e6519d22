//! Deterministic fixed-point physics for a swinging player: a grappling hook
//! state machine, a rope constraint, a sampled segment cast against
//! axis-aligned obstacles and an overlap resolver.
//!
//! Every length is an integer number of thousandths of a world unit, every
//! duration an integer number of microseconds, every speed an integer number
//! of thousandths of a world unit per second. The rope constraint and the
//! damping round to the nearest thousandth; distances, directions and
//! travelled lengths round toward zero.

pub mod fixed;
pub mod geometry;
pub mod object;
pub mod grappler;
pub mod player;
pub mod laws;
pub mod random;
pub mod layergen;
pub mod background;
pub mod screen;

pub use crate::random::{random_range, random_vec, seeded_random_range, seeded_random_vec};
pub use crate::screen::{circle_radius_for_rect, find_aspect_ratio, get_position_over_time};

//! Obstacles of the streamed layers: which layers surround a height, and
//! which obstacles a seed puts on a layer.

use vstd::prelude::*;
use crate::fixed::{div_trunc, trunc_div, SUBUNITS, WORLD_LIMIT};
use crate::geometry::Vec2;
use crate::object::{Object, all_wf};
use crate::random::{seeded_random_range, seeded_value};

verus! {

/// Obstacles on a layer.
pub const LAYER_OBJECTS: u64 = 3;

/// Side of a layer's obstacle.
pub const CUBE_SIZE: i64 = 30_000;

/// Half the width of the strip that a layer's obstacles lie in.
pub const LAYER_HALF_WIDTH: i64 = 400_000;

/// How far an obstacle may lie above or below its layer's height.
pub const LAYER_SPREAD: i64 = 20_000;

/// Largest magnitude of a layer's height, in world units, that obstacles are
/// made for.
pub const LAYER_LIMIT: i32 = 99_000_000;

/// Height of the lowest layer, in world units.
pub const FIRST_LAYER: i32 = 200;

/// Distance between two layers, in world units.
pub const LAYER_GAP: i32 = 200;

/// How far above the player layers are kept, in world units.
pub const BUFFER_ABOVE: i32 = 400;

/// How far below the player layers are kept, in world units.
pub const BUFFER_BELOW: i32 = 600;

/// The seed of a layer: the world's seed mixed with the layer's height.
pub open spec fn spec_layer_seed(seed: u64, layer_index: i32) -> u64 {
    seed ^ (layer_index as u64).wrapping_mul(0x9E3779B97F4A7C15)
}

/// The seed of the `i`-th obstacle's horizontal place.
pub open spec fn spec_x_seed(layer_seed: u64, i: u64) -> u64 {
    layer_seed.wrapping_mul(13).wrapping_add((i * 17) as u64)
}

/// The seed of the `i`-th obstacle's vertical place.
pub open spec fn spec_y_seed(layer_seed: u64, i: u64) -> u64 {
    layer_seed.wrapping_mul(19).wrapping_add((i * 23) as u64)
}

/// The obstacle of a layer at horizontal place `x`, `y_offset` off the
/// layer's height.
pub open spec fn spec_layer_object(layer_index: i32, x: int, y_offset: int) -> Object {
    Object {
        position: Vec2 { x: x as i64, y: (layer_index * SUBUNITS + y_offset) as i64 },
        size: Vec2 { x: CUBE_SIZE, y: CUBE_SIZE },
    }
}

/// The `i`-th obstacle that `seed` puts on a layer.
pub open spec fn spec_generated(seed: u64, layer_index: i32, i: u64) -> Object {
    let layer_seed = spec_layer_seed(seed, layer_index);
    spec_layer_object(
        layer_index,
        seeded_value(spec_x_seed(layer_seed, i), -LAYER_HALF_WIDTH, LAYER_HALF_WIDTH as int),
        seeded_value(spec_y_seed(layer_seed, i), -LAYER_SPREAD, LAYER_SPREAD as int),
    )
}

/// The seed of a layer.
pub fn layer_seed(seed: u64, layer_index: i32) -> (mixed: u64)
    ensures
        mixed == spec_layer_seed(seed, layer_index),
{
    let index: u64 = #[verifier::truncate] (layer_index as u64);
    seed ^ index.wrapping_mul(0x9E3779B97F4A7C15)
}

/// The obstacle of a layer at horizontal place `x`, `y_offset` off the
/// layer's height.
pub fn layer_object(layer_index: i32, x: i64, y_offset: i64) -> (object: Object)
    requires
        -LAYER_LIMIT <= layer_index <= LAYER_LIMIT,
        -LAYER_HALF_WIDTH <= x <= LAYER_HALF_WIDTH,
        -LAYER_SPREAD <= y_offset <= LAYER_SPREAD,
    ensures
        object == spec_layer_object(layer_index, x as int, y_offset as int),
        object.wf(),
{
    Object::new(
        Vec2::new(x, layer_index as i64 * SUBUNITS + y_offset),
        Vec2::new(CUBE_SIZE, CUBE_SIZE),
    )
}

/// The obstacles that `seed` puts on the layer at height `layer_index` (in
/// world units): always the same for the same seed and layer.
pub fn generate_layer(seed: u64, layer_index: i32) -> (cubes: Vec<Object>)
    requires
        -LAYER_LIMIT <= layer_index <= LAYER_LIMIT,
    ensures
        cubes@.len() == LAYER_OBJECTS,
        forall|i: int|
            0 <= i < LAYER_OBJECTS ==> cubes@[i] == spec_generated(seed, layer_index, i as u64),
        all_wf(cubes@),
{
    let mixed: u64 = layer_seed(seed, layer_index);
    let mut cubes: Vec<Object> = Vec::with_capacity(3);
    let mut i: u64 = 0;
    while i < LAYER_OBJECTS
        invariant
            -LAYER_LIMIT <= layer_index <= LAYER_LIMIT,
            mixed == spec_layer_seed(seed, layer_index),
            0 <= i <= LAYER_OBJECTS,
            cubes@.len() == i,
            forall|k: int| 0 <= k < i ==> cubes@[k] == spec_generated(seed, layer_index, k as u64),
            all_wf(cubes@),
        decreases LAYER_OBJECTS - i,
    {
        let x_seed: u64 = mixed.wrapping_mul(13).wrapping_add(i * 17);
        let y_seed: u64 = mixed.wrapping_mul(19).wrapping_add(i * 23);
        let x: i64 = seeded_random_range(x_seed, -LAYER_HALF_WIDTH, LAYER_HALF_WIDTH);
        let y_offset: i64 = seeded_random_range(y_seed, -LAYER_SPREAD, LAYER_SPREAD);
        cubes.push(layer_object(layer_index, x, y_offset));
        i = i + 1;
    }
    cubes
}

/// The player's height in whole world units, rounded toward zero.
pub open spec fn spec_whole_units(y: int) -> int {
    trunc_div(y, SUBUNITS as int)
}

/// The layers from `layer_y` upward (toward smaller heights) that lie no
/// more than `BUFFER_ABOVE` above and `BUFFER_BELOW` below `player_y`.
pub open spec fn layers_from(layer_y: int, player_y: int) -> Seq<i32>
    decreases layer_y - (player_y - BUFFER_ABOVE) + LAYER_GAP,
{
    if layer_y < player_y - BUFFER_ABOVE {
        Seq::empty()
    } else if layer_y <= player_y + BUFFER_BELOW {
        seq![layer_y as i32] + layers_from(layer_y - LAYER_GAP, player_y)
    } else {
        layers_from(layer_y - LAYER_GAP, player_y)
    }
}

/// The heights, in world units, of the layers kept round the height `y`,
/// lowest layer first.
pub fn layers_at_y(y: i64) -> (layers: Vec<i32>)
    requires
        -WORLD_LIMIT <= y <= WORLD_LIMIT,
    ensures
        layers@ == layers_from(FIRST_LAYER as int, spec_whole_units(y as int)),
{
    let mut layers: Vec<i32> = Vec::new();
    let player_y: i32 = div_trunc(y as i128, SUBUNITS as i128) as i32;
    let mut layer_y: i32 = FIRST_LAYER;
    while layer_y >= player_y - BUFFER_ABOVE
        invariant
            -1_000_000_000 <= player_y <= 1_000_000_000,
            layer_y <= FIRST_LAYER,
            player_y - BUFFER_ABOVE - LAYER_GAP <= layer_y || layer_y == FIRST_LAYER,
            layers@ + layers_from(layer_y as int, player_y as int) == layers_from(
                FIRST_LAYER as int,
                player_y as int,
            ),
        decreases layer_y - (player_y - BUFFER_ABOVE) + LAYER_GAP,
    {
        let ghost before = layers@;
        if layer_y <= player_y + BUFFER_BELOW {
            layers.push(layer_y);
        }
        proof {
            let rest = layers_from(layer_y - LAYER_GAP, player_y as int);
            if layer_y <= player_y + BUFFER_BELOW {
                assert(before.push(layer_y) + rest =~= before + (seq![layer_y] + rest));
            }
        }
        layer_y = layer_y - LAYER_GAP;
    }
    proof {
        assert(layers@ + Seq::<i32>::empty() =~= layers@);
    }
    layers
}

} // verus!

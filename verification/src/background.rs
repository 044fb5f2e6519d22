//! The grid of background tiles.

use vstd::prelude::*;
use crate::fixed::{div_trunc, SUBUNITS, WORLD_LIMIT};
use crate::geometry::Vec2;
use crate::layergen::spec_whole_units;

verus! {

/// Side of a tile.
pub const TILE_SIZE: i64 = 100_000;

/// Half the width of the tiled strip.
pub const HALF_WORLD_WIDTH: i64 = 800_000;

/// Tiles in a row.
pub const TILES_PER_ROW: usize = 17;

/// Distance between two rows of tiles, in world units.
pub const TILE_ROW_GAP: i32 = 100;

/// How far above and below the player rows are kept, in world units.
pub const TILE_BUFFER: i32 = 1_000;

/// A background tile, given by its top-left corner.
#[derive(Clone, Copy, Debug, PartialEq, Eq, Structural)]
pub struct Tile {
    pub position: Vec2,
}

/// The `k`-th tile of the row at height `layer_y` (in world units).
pub open spec fn spec_tile(layer_y: i32, k: int) -> Tile {
    Tile {
        position: Vec2 {
            x: (-HALF_WORLD_WIDTH + k * TILE_SIZE) as i64,
            y: (layer_y * SUBUNITS) as i64,
        },
    }
}

/// The row of tiles at height `layer_y` (in world units), left to right.
pub fn generate_tile_layer(_seed: u64, layer_y: i32) -> (tiles: Vec<Tile>)
    ensures
        tiles@.len() == TILES_PER_ROW,
        forall|k: int| 0 <= k < TILES_PER_ROW ==> tiles@[k] == spec_tile(layer_y, k),
{
    let mut tiles: Vec<Tile> = Vec::new();
    let mut x: i64 = -HALF_WORLD_WIDTH;
    while x <= HALF_WORLD_WIDTH
        invariant
            x == -HALF_WORLD_WIDTH + tiles@.len() * TILE_SIZE,
            tiles@.len() <= TILES_PER_ROW,
            forall|k: int| 0 <= k < tiles@.len() ==> tiles@[k] == spec_tile(layer_y, k),
        decreases HALF_WORLD_WIDTH + TILE_SIZE - x,
    {
        tiles.push(Tile { position: Vec2::new(x, layer_y as i64 * SUBUNITS) });
        x = x + TILE_SIZE;
    }
    tiles
}

/// The rows from `layer_y` upward, down to `TILE_BUFFER` above `player_y`.
pub open spec fn rows_above(layer_y: int, player_y: int) -> Seq<i32>
    decreases layer_y - (player_y - TILE_BUFFER) + TILE_ROW_GAP,
{
    if layer_y < player_y - TILE_BUFFER {
        Seq::empty()
    } else {
        seq![layer_y as i32] + rows_above(layer_y - TILE_ROW_GAP, player_y)
    }
}

/// The rows from `layer_y` downward, up to `TILE_BUFFER` below `player_y`.
pub open spec fn rows_below(layer_y: int, player_y: int) -> Seq<i32>
    decreases player_y + TILE_BUFFER - layer_y + TILE_ROW_GAP,
{
    if layer_y > player_y + TILE_BUFFER {
        Seq::empty()
    } else {
        seq![layer_y as i32] + rows_below(layer_y + TILE_ROW_GAP, player_y)
    }
}

/// The heights, in world units, of the rows of tiles kept round the height
/// `player_y`: those from 200 upward first, then those from 300 downward.
pub fn tile_layers_at_y(player_y: i64) -> (layers: Vec<i32>)
    requires
        -WORLD_LIMIT <= player_y <= WORLD_LIMIT,
    ensures
        layers@ == rows_above(200, spec_whole_units(player_y as int)) + rows_below(
            300,
            spec_whole_units(player_y as int),
        ),
{
    let height: i32 = div_trunc(player_y as i128, SUBUNITS as i128) as i32;
    let mut layers: Vec<i32> = Vec::new();
    let mut layer_y: i32 = 200;
    while layer_y >= height - TILE_BUFFER
        invariant
            -1_000_000_000 <= height <= 1_000_000_000,
            layer_y <= 200,
            height - TILE_BUFFER - TILE_ROW_GAP <= layer_y || layer_y == 200,
            layers@ + rows_above(layer_y as int, height as int) == rows_above(200, height as int),
        decreases layer_y - (height - TILE_BUFFER) + TILE_ROW_GAP,
    {
        proof {
            let rest = rows_above(layer_y - TILE_ROW_GAP, height as int);
            assert(layers@.push(layer_y) + rest =~= layers@ + (seq![layer_y] + rest));
        }
        layers.push(layer_y);
        layer_y = layer_y - TILE_ROW_GAP;
    }
    proof {
        assert(layers@ + Seq::<i32>::empty() =~= layers@);
    }
    let ghost above = layers@;
    let ghost mut below = Seq::<i32>::empty();
    proof {
        assert(above + below =~= above);
        assert(below + rows_below(300, height as int) =~= rows_below(300, height as int));
    }
    let mut layer_y_down: i32 = 300;
    while layer_y_down <= height + TILE_BUFFER
        invariant
            -1_000_000_000 <= height <= 1_000_000_000,
            above == rows_above(200, height as int),
            300 <= layer_y_down,
            layer_y_down <= height + TILE_BUFFER + TILE_ROW_GAP || layer_y_down == 300,
            layers@ == above + below,
            below + rows_below(layer_y_down as int, height as int) == rows_below(
                300,
                height as int,
            ),
        decreases height + TILE_BUFFER - layer_y_down + TILE_ROW_GAP,
    {
        proof {
            let rest = rows_below(layer_y_down + TILE_ROW_GAP, height as int);
            assert(below.push(layer_y_down) + rest =~= below + (seq![layer_y_down] + rest));
            assert(layers@.push(layer_y_down) =~= above + below.push(layer_y_down));
            below = below.push(layer_y_down);
        }
        layers.push(layer_y_down);
        layer_y_down = layer_y_down + TILE_ROW_GAP;
    }
    proof {
        assert(below + Seq::<i32>::empty() =~= below);
    }
    layers
}

} // verus!

//! The ground of the match: a square of tiles around the origin.

use crate::units::Position;
use vstd::prelude::*;

verus! {

/// Tiles from the origin to each edge of the ground.
pub const BACKGROUND_REACH: i64 = 7;

/// Tiles along one side of the ground.
pub const BACKGROUND_SIDE: usize = 14;

/// Where the tile number `index` lies: the tiles are counted column by
/// column, and within a column from the lowest row up, the first tile lying
/// `BACKGROUND_REACH` tiles left of and below the origin.
pub open spec fn background_tile(index: int, tile_size: int) -> Position {
    Position {
        x: ((index / (BACKGROUND_SIDE as int) - BACKGROUND_REACH) * tile_size) as i64,
        y: ((index % (BACKGROUND_SIDE as int) - BACKGROUND_REACH) * tile_size) as i64,
    }
}

/// The positions of all tiles of the ground, for square tiles of side
/// `tile_size`.
pub fn background_tiles(tile_size: u32) -> (tiles: Vec<Position>)
    ensures
        tiles@.len() == BACKGROUND_SIDE * BACKGROUND_SIDE,
        forall|index: int|
            0 <= index < tiles@.len() ==> tiles@[index] == background_tile(index, tile_size as int),
{
    let mut tiles: Vec<Position> = Vec::new();
    let size: i64 = tile_size as i64;
    let mut column: i64 = -BACKGROUND_REACH;
    while column < BACKGROUND_REACH
        invariant
            -BACKGROUND_REACH <= column <= BACKGROUND_REACH,
            size == tile_size,
            tiles@.len() == (column + BACKGROUND_REACH) * BACKGROUND_SIDE,
            forall|index: int|
                0 <= index < tiles@.len() ==> tiles@[index] == background_tile(
                    index,
                    tile_size as int,
                ),
        decreases BACKGROUND_REACH - column,
    {
        let mut row: i64 = -BACKGROUND_REACH;
        while row < BACKGROUND_REACH
            invariant
                -BACKGROUND_REACH <= column < BACKGROUND_REACH,
                -BACKGROUND_REACH <= row <= BACKGROUND_REACH,
                size == tile_size,
                tiles@.len() == (column + BACKGROUND_REACH) * BACKGROUND_SIDE + (row
                    + BACKGROUND_REACH),
                forall|index: int|
                    0 <= index < tiles@.len() ==> tiles@[index] == background_tile(
                        index,
                        tile_size as int,
                    ),
            decreases BACKGROUND_REACH - row,
        {
            assert(-7 * 0xffff_ffff <= column * size <= 7 * 0xffff_ffff) by (nonlinear_arith)
                requires
                    -7 <= column <= 7,
                    0 <= size <= 0xffff_ffff,
            ;
            assert(-7 * 0xffff_ffff <= row * size <= 7 * 0xffff_ffff) by (nonlinear_arith)
                requires
                    -7 <= row <= 7,
                    0 <= size <= 0xffff_ffff,
            ;
            tiles.push(Position { x: column * size, y: row * size });
            row += 1;
        }
        column += 1;
    }
    tiles
}

} // verus!

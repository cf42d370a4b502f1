//! One-shot placement events a caller may route through its own event queue.

use vstd::prelude::*;

use crate::tile::TileId;

verus! {

/// Request to place a tile of the given kind at cell (x, y).
#[derive(Clone, Copy, PartialEq, Eq, Structural, Debug)]
pub struct PlaceTile {
    pub x: u32,
    pub y: u32,
    pub tile: TileId,
}

/// Request to remove the tile at cell (x, y).
#[derive(Clone, Copy, PartialEq, Eq, Structural, Debug)]
pub struct RemoveTile {
    pub x: u32,
    pub y: u32,
}

} // verus!

//! One-shot tile placement for the base and overlay layers. Placement is
//! suppressed while a pipe tool is active, since pipe tools claim the pointer
//! buttons exclusively.

use vstd::prelude::*;

use crate::input::{is_pipe_tool, GameplayInputState, Tool};
use crate::map::{cell_index, MapState};
use crate::sync::{pos_in_bounds, set_tile_in_tilemap, GridPos, LayerState, TileEntry};
use crate::tile::{spec_def, TileId, Tileset};

verus! {

/// Whether a frame places a base tile: no pipe tool active, the primary
/// button freshly pressed, and the pointer on a cell.
pub open spec fn base_place_acts(gi: GameplayInputState) -> bool {
    !is_pipe_tool(gi.selected_tool) && gi.left_just_pressed && gi.cursor_cell is Some
}

/// Whether a frame places an overlay marker: no pipe tool active, the
/// secondary button freshly pressed, and the pointer on a cell.
pub open spec fn overlay_place_acts(gi: GameplayInputState) -> bool {
    !is_pipe_tool(gi.selected_tool) && gi.right_just_pressed && gi.cursor_cell is Some
}

/// Places a dirt base tile at the pointer cell on a fresh primary click and
/// upserts the matching visual entry in the base layer. Does nothing while a
/// pipe tool is active, without a fresh click, or with the pointer off the
/// map. Returns the cell placed at, if any.
pub fn place_base_on_left_click(
    gi: &GameplayInputState,
    map: &mut MapState,
    tileset: &Tileset,
    layer: &mut LayerState,
) -> (placed: Option<GridPos>)
    requires
        old(map).wf(),
        old(layer).wf(),
        old(layer).size == old(map).size,
        tileset.has_def(TileId::Dirt),
        gi.cursor_cell matches Some(c) ==> pos_in_bounds(old(map).size, c),
    ensures
        final(map).wf(),
        final(map).size == old(map).size,
        final(map).overlay@ == old(map).overlay@,
        final(layer).wf(),
        final(layer).size == old(layer).size,
        !base_place_acts(*gi) ==> placed is None && *final(map) == *old(map) && *final(layer)
            == *old(layer),
        base_place_acts(*gi) ==> placed == gi.cursor_cell,
        base_place_acts(*gi) ==> final(map).base@ == old(map).base@.update(
            cell_index(old(map).size, gi.cursor_cell->0.x as int, gi.cursor_cell->0.y as int),
            TileId::Dirt,
        ),
        base_place_acts(*gi) ==> final(layer).entries@ == old(layer).entries@.update(
            cell_index(old(map).size, gi.cursor_cell->0.x as int, gi.cursor_cell->0.y as int),
            Some(
                TileEntry {
                    texture_index: 0,
                    color: (spec_def(tileset.defs@, TileId::Dirt)->0).color,
                },
            ),
        ),
{
    let placing_mode = match gi.selected_tool {
        Tool::PipePlace | Tool::PipeErase => true,
        Tool::NoTool => false,
    };
    if placing_mode {
        return None;
    }
    if !gi.left_just_pressed {
        return None;
    }
    let tp = match gi.cursor_cell {
        Some(c) => c,
        None => {
            return None;
        },
    };
    map.set_base(tp.x, tp.y, TileId::Dirt);
    let color = tileset.def(TileId::Dirt).color;
    set_tile_in_tilemap(layer, color, tp.x, tp.y);
    Some(tp)
}

/// Places an overlay marker at the pointer cell on a fresh secondary click
/// and upserts the matching visual entry in the overlay layer. Does nothing
/// while a pipe tool is active, without a fresh click, or with the pointer
/// off the map. Returns the cell placed at, if any.
pub fn place_overlay_on_right_click(
    gi: &GameplayInputState,
    map: &mut MapState,
    tileset: &Tileset,
    layer: &mut LayerState,
) -> (placed: Option<GridPos>)
    requires
        old(map).wf(),
        old(layer).wf(),
        old(layer).size == old(map).size,
        tileset.has_def(TileId::Marker),
        gi.cursor_cell matches Some(c) ==> pos_in_bounds(old(map).size, c),
    ensures
        final(map).wf(),
        final(map).size == old(map).size,
        final(map).base@ == old(map).base@,
        final(layer).wf(),
        final(layer).size == old(layer).size,
        !overlay_place_acts(*gi) ==> placed is None && *final(map) == *old(map) && *final(layer)
            == *old(layer),
        overlay_place_acts(*gi) ==> placed == gi.cursor_cell,
        overlay_place_acts(*gi) ==> final(map).overlay@ == old(map).overlay@.update(
            cell_index(old(map).size, gi.cursor_cell->0.x as int, gi.cursor_cell->0.y as int),
            Some(TileId::Marker),
        ),
        overlay_place_acts(*gi) ==> final(layer).entries@ == old(layer).entries@.update(
            cell_index(old(map).size, gi.cursor_cell->0.x as int, gi.cursor_cell->0.y as int),
            Some(
                TileEntry {
                    texture_index: 0,
                    color: (spec_def(tileset.defs@, TileId::Marker)->0).color,
                },
            ),
        ),
{
    let placing_mode = match gi.selected_tool {
        Tool::PipePlace | Tool::PipeErase => true,
        Tool::NoTool => false,
    };
    if placing_mode {
        return None;
    }
    if !gi.right_just_pressed {
        return None;
    }
    let tp = match gi.cursor_cell {
        Some(c) => c,
        None => {
            return None;
        },
    };
    map.set_overlay(tp.x, tp.y, Some(TileId::Marker));
    let color = tileset.def(TileId::Marker).color;
    set_tile_in_tilemap(layer, color, tp.x, tp.y);
    Some(tp)
}

} // verus!

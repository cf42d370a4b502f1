//! The tile sync layer: an abstract model of one visual layer as a mapping
//! from cell to visual entry, with the upsert and remove operations the
//! renderer-facing code must mirror, and the law saying when a sync pass
//! changes a cell's entry.

use vstd::prelude::*;

use crate::map::{cell_count, cell_index, in_bounds, lemma_cell_index_in_range, MapSize};
use crate::tile::ColorRgba;

verus! {

/// A discrete cell position on the grid.
#[derive(Clone, Copy, PartialEq, Eq, Structural, Debug)]
pub struct GridPos {
    pub x: u32,
    pub y: u32,
}

/// Whether the cell lies inside a map of the given size.
pub open spec fn pos_in_bounds(size: MapSize, p: GridPos) -> bool {
    in_bounds(size, p.x as int, p.y as int)
}

/// The observable state of one visual tile: which sprite variant it shows and
/// its color tint.
#[derive(Clone, Copy, PartialEq, Eq, Structural, Debug)]
pub struct TileEntry {
    pub texture_index: u32,
    pub color: ColorRgba,
}

/// One visual layer: per cell, the entry currently shown there, or `None`
/// where the layer shows nothing. The engine-side tile storage must hold an
/// entity at exactly the cells that hold `Some` entry here.
pub struct LayerState {
    pub size: MapSize,
    pub entries: Vec<Option<TileEntry>>,
}

impl LayerState {
    /// Invariant of a live layer: one slot per cell, and the cell count fits
    /// the 32-bit index arithmetic.
    pub open spec fn wf(self) -> bool {
        &&& self.entries@.len() == cell_count(self.size)
        &&& cell_count(self.size) <= u32::MAX as int
    }

    /// Creates an empty layer sized to the map: no cell shows anything.
    pub fn new(size: MapSize) -> (l: LayerState)
        requires
            cell_count(size) <= u32::MAX as int,
        ensures
            l.wf(),
            l.size == size,
            forall|i: int| 0 <= i < cell_count(size) ==> l.entries@[i] is None,
    {
        let num = (size.w * size.h) as usize;
        let mut entries: Vec<Option<TileEntry>> = Vec::new();
        let mut i: usize = 0;
        while i < num
            invariant
                i <= num,
                num == cell_count(size),
                entries@.len() == i as int,
                forall|j: int| 0 <= j < i as int ==> entries@[j] is None,
            decreases num - i,
        {
            entries.push(None);
            i = i + 1;
        }
        LayerState { size, entries }
    }

    /// Flat storage index of the in-bounds cell (x, y).
    pub fn idx(&self, x: u32, y: u32) -> (i: usize)
        requires
            self.wf(),
            in_bounds(self.size, x as int, y as int),
        ensures
            i as int == cell_index(self.size, x as int, y as int),
            (i as int) < cell_count(self.size),
    {
        proof {
            lemma_cell_index_in_range(self.size, x as int, y as int);
        }
        (y * self.size.w + x) as usize
    }

    /// The entry currently shown at the in-bounds cell (x, y), if any.
    pub fn get(&self, x: u32, y: u32) -> (e: Option<TileEntry>)
        requires
            self.wf(),
            in_bounds(self.size, x as int, y as int),
        ensures
            e == self.entries@[cell_index(self.size, x as int, y as int)],
    {
        self.entries[self.idx(x, y)]
    }
}

/// Upserts a visual tile at (x, y) with the layer's color and the default
/// sprite variant. An entry already shown there is replaced, never duplicated.
pub fn set_tile_in_tilemap(layer: &mut LayerState, color: ColorRgba, x: u32, y: u32)
    requires
        old(layer).wf(),
        in_bounds(old(layer).size, x as int, y as int),
    ensures
        final(layer).wf(),
        final(layer).size == old(layer).size,
        final(layer).entries@ == old(layer).entries@.update(
            cell_index(old(layer).size, x as int, y as int),
            Some(TileEntry { texture_index: 0, color }),
        ),
{
    set_tile_with_index(layer, 0, color, x, y);
}

/// Upserts a visual tile at (x, y) with a specific sprite variant and color,
/// as when the variant is selected by a connectivity mask. An entry already
/// shown there is replaced, never duplicated.
pub fn set_tile_with_index(
    layer: &mut LayerState,
    texture_index: u32,
    color: ColorRgba,
    x: u32,
    y: u32,
)
    requires
        old(layer).wf(),
        in_bounds(old(layer).size, x as int, y as int),
    ensures
        final(layer).wf(),
        final(layer).size == old(layer).size,
        final(layer).entries@ == old(layer).entries@.update(
            cell_index(old(layer).size, x as int, y as int),
            Some(TileEntry { texture_index, color }),
        ),
{
    let i = layer.idx(x, y);
    layer.entries.set(i, Some(TileEntry { texture_index, color }));
}

/// Removes the visual tile at (x, y) if one is shown. Removing from a cell
/// that shows nothing is a no-op, not an error.
pub fn remove_tile_in_tilemap(layer: &mut LayerState, x: u32, y: u32)
    requires
        old(layer).wf(),
        in_bounds(old(layer).size, x as int, y as int),
    ensures
        final(layer).wf(),
        final(layer).size == old(layer).size,
        final(layer).entries@ == old(layer).entries@.update(
            cell_index(old(layer).size, x as int, y as int),
            None::<TileEntry>,
        ),
{
    let i = layer.idx(x, y);
    layer.entries.set(i, None);
}

/// The entry a pipe layer shows for one cell once synced: the cell's
/// connectivity mask as the sprite variant and the layer's color where pipe
/// is present, nothing where it is absent.
pub open spec fn pipe_entry(present: bool, mask: u8, color: ColorRgba) -> Option<TileEntry> {
    if present {
        Some(TileEntry { texture_index: mask as u32, color })
    } else {
        None
    }
}

/// Whether a layer's entries are in step with the given presence and mask
/// state, cell by cell.
pub open spec fn pipe_layer_synced(
    entries: Seq<Option<TileEntry>>,
    present: Seq<bool>,
    mask: Seq<u8>,
    color: ColorRgba,
) -> bool {
    &&& entries.len() == present.len()
    &&& forall|i: int|
        0 <= i < present.len() ==> entries[i] == pipe_entry(present[i], mask[i], color)
}

/// Law: across one sync pass, a cell's visual entry is removed exactly when
/// its presence flipped from true to false, and its entry becomes a different
/// shown entry exactly when presence flipped from false to true or the mask
/// changed while presence stayed true.
pub proof fn lemma_sync_transition(
    entries0: Seq<Option<TileEntry>>,
    entries1: Seq<Option<TileEntry>>,
    present0: Seq<bool>,
    mask0: Seq<u8>,
    present1: Seq<bool>,
    mask1: Seq<u8>,
    color: ColorRgba,
    i: int,
)
    requires
        pipe_layer_synced(entries0, present0, mask0, color),
        pipe_layer_synced(entries1, present1, mask1, color),
        present0.len() == present1.len(),
        0 <= i < present0.len(),
    ensures
        (entries0[i] is Some && entries1[i] is None) <==> (present0[i] && !present1[i]),
        (entries1[i] is Some && entries1[i] != entries0[i]) <==> (present1[i] && (!present0[i]
            || mask0[i] != mask1[i])),
{
}

} // verus!

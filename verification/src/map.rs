//! The authoritative logical grid: coordinate math for the flat row-major
//! storage, and the per-cell base and overlay tile state.

use vstd::prelude::*;

use crate::tile::TileId;

verus! {

/// Width and height of the map in cells, fixed at map creation.
#[derive(Clone, Copy, PartialEq, Eq, Structural, Debug)]
pub struct MapSize {
    pub w: u32,
    pub h: u32,
}

/// Number of cells a map of this size holds.
pub open spec fn cell_count(size: MapSize) -> int {
    size.w as int * size.h as int
}

/// Flat storage index of cell (x, y): row-major, `y * width + x`.
pub open spec fn cell_index(size: MapSize, x: int, y: int) -> int {
    y * size.w as int + x
}

/// Whether (x, y) lies inside the map.
pub open spec fn in_bounds(size: MapSize, x: int, y: int) -> bool {
    0 <= x < size.w as int && 0 <= y < size.h as int
}

/// The x coordinate of the cell stored at flat index `i`.
pub open spec fn coord_x(size: MapSize, i: int) -> int {
    i % size.w as int
}

/// The y coordinate of the cell stored at flat index `i`.
pub open spec fn coord_y(size: MapSize, i: int) -> int {
    i / size.w as int
}

/// An in-bounds cell's flat index lies inside the storage.
pub proof fn lemma_cell_index_in_range(size: MapSize, x: int, y: int)
    by (nonlinear_arith)
    requires
        in_bounds(size, x, y),
    ensures
        0 <= cell_index(size, x, y) < cell_count(size),
{
}

/// Distinct in-bounds cells have distinct flat indices.
pub proof fn lemma_cell_index_injective(size: MapSize, x1: int, y1: int, x2: int, y2: int)
    by (nonlinear_arith)
    requires
        in_bounds(size, x1, y1),
        in_bounds(size, x2, y2),
        cell_index(size, x1, y1) == cell_index(size, x2, y2),
    ensures
        x1 == x2 && y1 == y2,
{
}

/// Every flat index inside the storage is the index of exactly the in-bounds
/// cell `(coord_x(i), coord_y(i))`.
pub proof fn lemma_index_coords(size: MapSize, i: int)
    by (nonlinear_arith)
    requires
        0 <= i < cell_count(size),
    ensures
        in_bounds(size, coord_x(size, i), coord_y(size, i)),
        cell_index(size, coord_x(size, i), coord_y(size, i)) == i,
{
}

/// The authoritative logical grid: one base tile per cell and one optional
/// overlay marker per cell, both stored row-major.
pub struct MapState {
    pub size: MapSize,
    pub base: Vec<TileId>,
    pub overlay: Vec<Option<TileId>>,
}

impl MapState {
    /// Invariant of a live map: both per-cell vectors cover every cell, and
    /// the cell count fits the 32-bit index arithmetic.
    pub open spec fn wf(self) -> bool {
        &&& self.base@.len() == cell_count(self.size)
        &&& self.overlay@.len() == cell_count(self.size)
        &&& cell_count(self.size) <= u32::MAX as int
    }

    /// Creates a map of the given size with an empty base tile and no overlay
    /// marker in every cell.
    pub fn new(size: MapSize) -> (m: MapState)
        requires
            cell_count(size) <= u32::MAX as int,
        ensures
            m.wf(),
            m.size == size,
            forall|i: int| 0 <= i < cell_count(size) ==> m.base@[i] == TileId::Empty,
            forall|i: int| 0 <= i < cell_count(size) ==> m.overlay@[i] is None,
    {
        let num = (size.w * size.h) as usize;
        let mut base: Vec<TileId> = Vec::new();
        let mut overlay: Vec<Option<TileId>> = Vec::new();
        let mut i: usize = 0;
        while i < num
            invariant
                i <= num,
                num == cell_count(size),
                base@.len() == i as int,
                overlay@.len() == i as int,
                forall|j: int| 0 <= j < i as int ==> base@[j] == TileId::Empty,
                forall|j: int| 0 <= j < i as int ==> overlay@[j] is None,
            decreases num - i,
        {
            base.push(TileId::Empty);
            overlay.push(None);
            i = i + 1;
        }
        MapState { size, base, overlay }
    }

    /// Flat storage index of the in-bounds cell (x, y).
    pub fn idx(&self, x: u32, y: u32) -> (i: usize)
        requires
            self.wf(),
            in_bounds(self.size, x as int, y as int),
        ensures
            i as int == cell_index(self.size, x as int, y as int),
            (i as int) < cell_count(self.size),
    {
        proof {
            lemma_cell_index_in_range(self.size, x as int, y as int);
        }
        (y * self.size.w + x) as usize
    }

    /// The base tile of the in-bounds cell (x, y).
    pub fn get_base(&self, x: u32, y: u32) -> (t: TileId)
        requires
            self.wf(),
            in_bounds(self.size, x as int, y as int),
        ensures
            t == self.base@[cell_index(self.size, x as int, y as int)],
    {
        self.base[self.idx(x, y)]
    }

    /// Sets the base tile of the in-bounds cell (x, y); every other cell and
    /// the whole overlay stay as they were.
    pub fn set_base(&mut self, x: u32, y: u32, tile: TileId)
        requires
            old(self).wf(),
            in_bounds(old(self).size, x as int, y as int),
        ensures
            final(self).wf(),
            final(self).size == old(self).size,
            final(self).base@ == old(self).base@.update(
                cell_index(old(self).size, x as int, y as int),
                tile,
            ),
            final(self).overlay@ == old(self).overlay@,
    {
        let idx = self.idx(x, y);
        self.base.set(idx, tile);
    }

    /// The overlay marker of the in-bounds cell (x, y), if any.
    pub fn get_overlay(&self, x: u32, y: u32) -> (t: Option<TileId>)
        requires
            self.wf(),
            in_bounds(self.size, x as int, y as int),
        ensures
            t == self.overlay@[cell_index(self.size, x as int, y as int)],
    {
        self.overlay[self.idx(x, y)]
    }

    /// Sets or clears the overlay marker of the in-bounds cell (x, y); every
    /// other cell and the whole base stay as they were.
    pub fn set_overlay(&mut self, x: u32, y: u32, tile: Option<TileId>)
        requires
            old(self).wf(),
            in_bounds(old(self).size, x as int, y as int),
        ensures
            final(self).wf(),
            final(self).size == old(self).size,
            final(self).overlay@ == old(self).overlay@.update(
                cell_index(old(self).size, x as int, y as int),
                tile,
            ),
            final(self).base@ == old(self).base@,
    {
        let idx = self.idx(x, y);
        self.overlay.set(idx, tile);
    }
}

} // verus!

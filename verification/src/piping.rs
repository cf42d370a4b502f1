//! The pipe network: per-cell pipe presence, the derived four-neighbor
//! connectivity masks, the drag gesture that rasterizes pointer paths into
//! straight and L-shaped fills, and the pass that recomputes connectivity and
//! reconciles the two pipe visual layers.

use vstd::math::{max, min};
use vstd::prelude::*;

use crate::input::{is_pipe_tool, GameplayInputState, Tool};
use crate::map::{
    cell_count, cell_index, coord_x, coord_y, in_bounds, lemma_cell_index_in_range,
    lemma_cell_index_injective, lemma_index_coords, MapSize,
};
use crate::sync::{
    pipe_entry, pipe_layer_synced, pos_in_bounds, remove_tile_in_tilemap, set_tile_with_index,
    GridPos, LayerState,
};
use crate::tile::ColorRgba;

verus! {

/// Tracks whether the player is dragging a pipe path and the last visited cell.
#[derive(Clone, Copy, PartialEq, Eq, Structural, Debug)]
pub struct PipeDragState {
    pub dragging: bool,
    pub last: Option<GridPos>,
}

impl Default for PipeDragState {
    /// The idle gesture state: not dragging, no anchor cell.
    fn default() -> (d: PipeDragState)
        ensures
            !d.dragging,
            d.last is None,
    {
        PipeDragState { dragging: false, last: None }
    }
}

/// Pipe occupancy and connectivity mask per cell (same dimensions as the map).
///
/// `present` is the source of truth for "this cell contains pipe"; `mask` is
/// derived from it by `resolve_connectivity` and is never written by gesture
/// logic. `dirty` is set by every presence mutation and cleared after a
/// resolve-and-sync pass, so the pass runs only when something changed.
pub struct PipeMap {
    pub size: MapSize,
    pub present: Vec<bool>,
    pub mask: Vec<u8>,
    pub dirty: bool,
}

/// True when the cell's axis neighbor at (x, y) is inside the map and has
/// pipe; a neighbor outside the map bounds counts as absent.
pub open spec fn neighbor_present(p: Seq<bool>, size: MapSize, x: int, y: int) -> bool {
    in_bounds(size, x, y) && p[cell_index(size, x, y)]
}

/// The 4-bit connectivity mask of cell (x, y): bit 0 is the neighbor above
/// (y-1), bit 1 the neighbor to the right (x+1), bit 2 the neighbor below
/// (y+1), bit 3 the neighbor to the left (x-1).
pub open spec fn conn_mask(p: Seq<bool>, size: MapSize, x: int, y: int) -> u8 {
    ((if neighbor_present(p, size, x, y - 1) {
        1int
    } else {
        0int
    }) + (if neighbor_present(p, size, x + 1, y) {
        2int
    } else {
        0int
    }) + (if neighbor_present(p, size, x, y + 1) {
        4int
    } else {
        0int
    }) + (if neighbor_present(p, size, x - 1, y) {
        8int
    } else {
        0int
    })) as u8
}

/// The mask the resolver stores for cell (x, y): its connectivity where pipe
/// is present, cleared to 0 where it is absent.
pub open spec fn stored_mask(p: Seq<bool>, size: MapSize, x: int, y: int) -> u8 {
    if p[cell_index(size, x, y)] {
        conn_mask(p, size, x, y)
    } else {
        0u8
    }
}

/// Whether every cell's stored mask agrees with the presence state.
pub open spec fn masks_resolved(p: Seq<bool>, m: Seq<u8>, size: MapSize) -> bool {
    forall|x: int, y: int| #![trigger cell_index(size, x, y)]
        in_bounds(size, x, y) ==> m[cell_index(size, x, y)] == stored_mask(p, size, x, y)
}

impl PipeMap {
    /// Invariant of a live pipe map: one presence flag and one mask per cell,
    /// and the cell count fits the 32-bit index arithmetic.
    pub open spec fn wf(self) -> bool {
        &&& self.present@.len() == cell_count(self.size)
        &&& self.mask@.len() == cell_count(self.size)
        &&& cell_count(self.size) <= u32::MAX as int
    }

    /// Creates a pipe map for a `(width, height)` grid with no pipe anywhere,
    /// all masks cleared, and nothing pending.
    pub fn new(size: (u32, u32)) -> (p: PipeMap)
        requires
            size.0 as int * size.1 as int <= u32::MAX as int,
        ensures
            p.wf(),
            p.size == (MapSize { w: size.0, h: size.1 }),
            forall|i: int| 0 <= i < cell_count(p.size) ==> !p.present@[i],
            forall|i: int| 0 <= i < cell_count(p.size) ==> p.mask@[i] == 0u8,
            !p.dirty,
    {
        let (w, h) = size;
        let msize = MapSize { w, h };
        let num = (w * h) as usize;
        let mut present: Vec<bool> = Vec::new();
        let mut mask: Vec<u8> = Vec::new();
        let mut i: usize = 0;
        while i < num
            invariant
                i <= num,
                num == cell_count(msize),
                present@.len() == i as int,
                mask@.len() == i as int,
                forall|j: int| 0 <= j < i as int ==> !present@[j],
                forall|j: int| 0 <= j < i as int ==> mask@[j] == 0u8,
            decreases num - i,
        {
            present.push(false);
            mask.push(0);
            i = i + 1;
        }
        PipeMap { size: msize, present, mask, dirty: false }
    }

    /// Flat storage index of the in-bounds cell (x, y).
    pub fn idx(&self, x: u32, y: u32) -> (i: usize)
        requires
            self.wf(),
            in_bounds(self.size, x as int, y as int),
        ensures
            i as int == cell_index(self.size, x as int, y as int),
            (i as int) < cell_count(self.size),
    {
        proof {
            lemma_cell_index_in_range(self.size, x as int, y as int);
        }
        (y * self.size.w + x) as usize
    }

    /// Whether the in-bounds cell (x, y) contains pipe.
    pub fn has(&self, x: u32, y: u32) -> (b: bool)
        requires
            self.wf(),
            in_bounds(self.size, x as int, y as int),
        ensures
            b == self.present@[cell_index(self.size, x as int, y as int)],
    {
        self.present[self.idx(x, y)]
    }

    /// Sets the pipe presence of the in-bounds cell (x, y) and marks the map
    /// dirty; every other cell and all masks stay as they were.
    pub fn set(&mut self, x: u32, y: u32, val: bool)
        requires
            old(self).wf(),
            in_bounds(old(self).size, x as int, y as int),
        ensures
            final(self).wf(),
            final(self).size == old(self).size,
            final(self).present@ == old(self).present@.update(
                cell_index(old(self).size, x as int, y as int),
                val,
            ),
            final(self).mask@ == old(self).mask@,
            final(self).dirty,
    {
        let i = self.idx(x, y);
        self.present.set(i, val);
        self.dirty = true;
    }

    /// Stores a mask value for the in-bounds cell (x, y). This writes derived
    /// state only: presence and the dirty flag are untouched.
    pub fn set_mask(&mut self, x: u32, y: u32, m: u8)
        requires
            old(self).wf(),
            in_bounds(old(self).size, x as int, y as int),
        ensures
            final(self).wf(),
            final(self).size == old(self).size,
            final(self).mask@ == old(self).mask@.update(
                cell_index(old(self).size, x as int, y as int),
                m,
            ),
            final(self).present@ == old(self).present@,
            final(self).dirty == old(self).dirty,
    {
        let i = self.idx(x, y);
        self.mask.set(i, m);
    }

    /// The stored mask of the in-bounds cell (x, y).
    pub fn get_mask(&self, x: u32, y: u32) -> (m: u8)
        requires
            self.wf(),
            in_bounds(self.size, x as int, y as int),
        ensures
            m == self.mask@[cell_index(self.size, x as int, y as int)],
    {
        self.mask[self.idx(x, y)]
    }

    /// Computes the connectivity mask of the in-bounds cell (x, y) from the
    /// current presence state, without storing it.
    pub fn compute_mask(&self, x: u32, y: u32) -> (m: u8)
        requires
            self.wf(),
            in_bounds(self.size, x as int, y as int),
        ensures
            m == conn_mask(self.present@, self.size, x as int, y as int),
    {
        let n: u8 = if y > 0 && self.has(x, y - 1) {
            1
        } else {
            0
        };
        let e: u8 = if x + 1 < self.size.w && self.has(x + 1, y) {
            2
        } else {
            0
        };
        let s: u8 = if y + 1 < self.size.h && self.has(x, y + 1) {
            4
        } else {
            0
        };
        let w: u8 = if x > 0 && self.has(x - 1, y) {
            8
        } else {
            0
        };
        n + e + s + w
    }

    /// Recomputes the stored mask of every cell from the current presence
    /// state: the full grid, in one pass, so every mask reflects the final
    /// state of the latest batch of presence edits.
    pub fn resolve_connectivity(&mut self)
        requires
            old(self).wf(),
        ensures
            final(self).wf(),
            final(self).size == old(self).size,
            final(self).present@ == old(self).present@,
            final(self).dirty == old(self).dirty,
            masks_resolved(final(self).present@, final(self).mask@, final(self).size),
    {
        let ghost size0 = self.size;
        let ghost p0 = self.present@;
        let ghost d0 = self.dirty;
        let w = self.size.w;
        let h = self.size.h;
        let mut y: u32 = 0;
        while y < h
            invariant
                self.wf(),
                self.size == size0,
                size0.w == w,
                size0.h == h,
                self.present@ == p0,
                self.dirty == d0,
                y <= h,
                forall|xx: int, yy: int| #![trigger cell_index(size0, xx, yy)]
                    in_bounds(size0, xx, yy) && cell_index(size0, xx, yy) < y as int * w as int
                        ==> self.mask@[cell_index(size0, xx, yy)] == stored_mask(p0, size0, xx, yy),
            decreases h - y,
        {
            let mut x: u32 = 0;
            while x < w
                invariant
                    self.wf(),
                    self.size == size0,
                    size0.w == w,
                    size0.h == h,
                    self.present@ == p0,
                    self.dirty == d0,
                    y < h,
                    x <= w,
                    forall|xx: int, yy: int| #![trigger cell_index(size0, xx, yy)]
                        in_bounds(size0, xx, yy) && cell_index(size0, xx, yy) < y as int * w as int
                            + x as int ==> self.mask@[cell_index(size0, xx, yy)] == stored_mask(
                            p0,
                            size0,
                            xx,
                            yy,
                        ),
                decreases w - x,
            {
                let m = self.compute_mask(x, y);
                let stored = if self.has(x, y) {
                    m
                } else {
                    0
                };
                self.set_mask(x, y, stored);
                proof {
                    assert forall|xx: int, yy: int|
                        in_bounds(size0, xx, yy) && cell_index(size0, xx, yy) < y as int
                            * w as int + x as int + 1 implies self.mask@[cell_index(
                        size0,
                        xx,
                        yy,
                    )] == stored_mask(p0, size0, xx, yy) by {
                        lemma_cell_index_in_range(size0, xx, yy);
                        lemma_cell_index_in_range(size0, x as int, y as int);
                        if cell_index(size0, xx, yy) == cell_index(size0, x as int, y as int) {
                            lemma_cell_index_injective(size0, xx, yy, x as int, y as int);
                        }
                    }
                }
                x = x + 1;
            }
            proof {
                assert((y as int + 1) * (w as int) == y as int * w as int + w as int)
                    by (nonlinear_arith);
            }
            y = y + 1;
        }
        proof {
            assert(h as int * w as int == cell_count(size0)) by (nonlinear_arith)
                requires
                    size0.w == w,
                    size0.h == h,
            ;
            assert forall|xx: int, yy: int| in_bounds(size0, xx, yy) implies self.mask@[cell_index(
                size0,
                xx,
                yy,
            )] == stored_mask(p0, size0, xx, yy) by {
                lemma_cell_index_in_range(size0, xx, yy);
            }
        }
    }

    /// Fills every cell on the straight inclusive segment between `from` and
    /// `to` with `val`, when the two cells share a row or a column; any other
    /// pair of cells is left untouched. Masks are never written here.
    pub fn fill_straight(&mut self, from: GridPos, to: GridPos, val: bool)
        requires
            old(self).wf(),
            pos_in_bounds(old(self).size, from),
            pos_in_bounds(old(self).size, to),
        ensures
            final(self).wf(),
            final(self).size == old(self).size,
            final(self).mask@ == old(self).mask@,
            final(self).present@.len() == old(self).present@.len(),
            forall|x: int, y: int| #![trigger cell_index(old(self).size, x, y)]
                in_bounds(old(self).size, x, y) ==> final(self).present@[cell_index(
                    old(self).size,
                    x,
                    y,
                )] == (if seg_contains(from, to, x, y) {
                    val
                } else {
                    old(self).present@[cell_index(old(self).size, x, y)]
                }),
            final(self).dirty == (old(self).dirty || from.x == to.x || from.y == to.y),
    {
        let ghost size0 = self.size;
        let ghost p0 = self.present@;
        let ghost m0 = self.mask@;
        let ghost d0 = self.dirty;
        if from.x == to.x {
            let x = from.x;
            let (a, b) = if from.y <= to.y {
                (from.y, to.y)
            } else {
                (to.y, from.y)
            };
            let mut cy = a;
            while cy <= b
                invariant
                    self.wf(),
                    self.size == size0,
                    self.mask@ == m0,
                    self.present@.len() == p0.len(),
                    pos_in_bounds(size0, from),
                    pos_in_bounds(size0, to),
                    from.x == to.x,
                    x == from.x,
                    a as int == min(from.y as int, to.y as int),
                    b as int == max(from.y as int, to.y as int),
                    a <= cy,
                    cy as int <= b as int + 1,
                    self.dirty == (d0 || cy > a),
                    forall|xx: int, yy: int| #![trigger cell_index(size0, xx, yy)]
                        in_bounds(size0, xx, yy) ==> self.present@[cell_index(size0, xx, yy)] == (
                        if xx == x as int && a as int <= yy < cy as int {
                            val
                        } else {
                            p0[cell_index(size0, xx, yy)]
                        }),
                decreases b as int + 1 - cy as int,
            {
                self.set(x, cy, val);
                proof {
                    assert forall|xx: int, yy: int| #![trigger cell_index(size0, xx, yy)]
                        in_bounds(size0, xx, yy) implies self.present@[cell_index(size0, xx, yy)]
                        == (if xx == x as int && a as int <= yy < cy as int + 1 {
                        val
                    } else {
                        p0[cell_index(size0, xx, yy)]
                    }) by {
                        lemma_cell_index_in_range(size0, xx, yy);
                        lemma_cell_index_in_range(size0, x as int, cy as int);
                        if cell_index(size0, xx, yy) == cell_index(size0, x as int, cy as int) {
                            lemma_cell_index_injective(size0, xx, yy, x as int, cy as int);
                        }
                    }
                }
                cy = cy + 1;
            }
        } else if from.y == to.y {
            let y = from.y;
            let (a, b) = if from.x <= to.x {
                (from.x, to.x)
            } else {
                (to.x, from.x)
            };
            let mut cx = a;
            while cx <= b
                invariant
                    self.wf(),
                    self.size == size0,
                    self.mask@ == m0,
                    self.present@.len() == p0.len(),
                    pos_in_bounds(size0, from),
                    pos_in_bounds(size0, to),
                    from.x != to.x,
                    from.y == to.y,
                    y == from.y,
                    a as int == min(from.x as int, to.x as int),
                    b as int == max(from.x as int, to.x as int),
                    a <= cx,
                    cx as int <= b as int + 1,
                    self.dirty == (d0 || cx > a),
                    forall|xx: int, yy: int| #![trigger cell_index(size0, xx, yy)]
                        in_bounds(size0, xx, yy) ==> self.present@[cell_index(size0, xx, yy)] == (
                        if yy == y as int && a as int <= xx < cx as int {
                            val
                        } else {
                            p0[cell_index(size0, xx, yy)]
                        }),
                decreases b as int + 1 - cx as int,
            {
                self.set(cx, y, val);
                proof {
                    assert forall|xx: int, yy: int| #![trigger cell_index(size0, xx, yy)]
                        in_bounds(size0, xx, yy) implies self.present@[cell_index(size0, xx, yy)]
                        == (if yy == y as int && a as int <= xx < cx as int + 1 {
                        val
                    } else {
                        p0[cell_index(size0, xx, yy)]
                    }) by {
                        lemma_cell_index_in_range(size0, xx, yy);
                        lemma_cell_index_in_range(size0, cx as int, y as int);
                        if cell_index(size0, xx, yy) == cell_index(size0, cx as int, y as int) {
                            lemma_cell_index_injective(size0, xx, yy, cx as int, y as int);
                        }
                    }
                }
                cx = cx + 1;
            }
        }
    }
}

/// The drag-live flag after the frame's press and release edges are applied
/// and before the tool gate: a press starts a drag, a release ends it, and a
/// release in the same frame as a press wins.
pub open spec fn drag_active_mid(d: PipeDragState, gi: GameplayInputState) -> bool {
    if gi.left_just_released {
        false
    } else if gi.left_just_pressed {
        true
    } else {
        d.dragging
    }
}

/// The anchor cell after the frame's press and release edges: either edge
/// clears it; otherwise the anchor recorded by an earlier sample stands.
pub open spec fn drag_anchor_mid(d: PipeDragState, gi: GameplayInputState) -> Option<GridPos> {
    if gi.left_just_pressed || gi.left_just_released {
        None
    } else {
        d.last
    }
}

/// Whether the frame's sample reaches the path stage: a pipe tool is
/// selected, the drag is live, the button is held, and the pointer is on the
/// map.
pub open spec fn drag_samples(d: PipeDragState, gi: GameplayInputState) -> bool {
    &&& is_pipe_tool(gi.selected_tool)
    &&& drag_active_mid(d, gi)
    &&& gi.left_pressed
    &&& gi.cursor_cell is Some
}

/// Whether the frame applies a fill: the sample carries an anchor from an
/// earlier sample and the pointer moved to a different cell.
pub open spec fn drag_edits(d: PipeDragState, gi: GameplayInputState) -> bool {
    drag_samples(d, gi) && drag_anchor_mid(d, gi) is Some && drag_anchor_mid(d, gi)
        != gi.cursor_cell
}

/// The drag-live flag the gesture interpreter leaves behind for this frame.
pub open spec fn drag_dragging_after(d: PipeDragState, gi: GameplayInputState) -> bool {
    is_pipe_tool(gi.selected_tool) && drag_active_mid(d, gi)
}

/// The anchor cell the gesture interpreter leaves behind for this frame: the
/// current cell whenever the sample reached the path stage, the mid-frame
/// anchor while the drag idles, nothing when no pipe tool is selected.
pub open spec fn drag_last_after(d: PipeDragState, gi: GameplayInputState) -> Option<GridPos> {
    if !is_pipe_tool(gi.selected_tool) {
        None
    } else if !(drag_active_mid(d, gi) && gi.left_pressed) {
        drag_anchor_mid(d, gi)
    } else if gi.cursor_cell is None {
        drag_anchor_mid(d, gi)
    } else {
        gi.cursor_cell
    }
}

/// Whether cell (x, y) lies on the straight inclusive segment between `a` and
/// `b`; empty unless the two endpoints share a row or a column.
pub open spec fn seg_contains(a: GridPos, b: GridPos, x: int, y: int) -> bool {
    ||| (a.x == b.x && x == a.x as int && min(a.y as int, b.y as int) <= y <= max(
        a.y as int,
        b.y as int,
    ))
    ||| (a.y == b.y && y == a.y as int && min(a.x as int, b.x as int) <= x <= max(
        a.x as int,
        b.x as int,
    ))
}

/// The corner cell of the L-shaped path from `a` to `b`: the horizontal leg
/// comes first, then the vertical one, so the corner sits at (b.x, a.y). A
/// drag walked in the reverse direction turns at the other corner; the
/// asymmetric horizontal-then-vertical rule is deliberate.
pub open spec fn path_corner(a: GridPos, b: GridPos) -> GridPos {
    GridPos { x: b.x, y: a.y }
}

/// Whether cell (x, y) lies on the axis-aligned fill path from `a` to `b`:
/// the straight segment when the endpoints share a row or column, the two
/// legs through the L-corner otherwise — never a diagonal.
pub open spec fn path_contains(a: GridPos, b: GridPos, x: int, y: int) -> bool {
    if a.x == b.x || a.y == b.y {
        seg_contains(a, b, x, y)
    } else {
        seg_contains(a, path_corner(a, b), x, y) || seg_contains(path_corner(a, b), b, x, y)
    }
}

/// The presence state after filling the path from `a` to `b` with `v`.
pub open spec fn path_filled(
    p: Seq<bool>,
    size: MapSize,
    a: GridPos,
    b: GridPos,
    v: bool,
) -> Seq<bool> {
    Seq::new(
        p.len(),
        |i: int|
            if path_contains(a, b, coord_x(size, i), coord_y(size, i)) {
                v
            } else {
                p[i]
            },
    )
}

/// The presence state the gesture interpreter leaves behind for this frame:
/// the path from the anchor to the current cell filled with the tool's value
/// when the frame edits, the old state otherwise.
pub open spec fn drag_present_after(
    d: PipeDragState,
    gi: GameplayInputState,
    p: Seq<bool>,
    size: MapSize,
) -> Seq<bool> {
    if drag_edits(d, gi) {
        path_filled(
            p,
            size,
            drag_anchor_mid(d, gi)->0,
            gi.cursor_cell->0,
            gi.selected_tool == Tool::PipePlace,
        )
    } else {
        p
    }
}

/// Uses the frame's collected input to start or stop drags and to write pipe
/// presence along the drag path: straight moves as one segment, diagonal
/// moves as two legs through the L-corner. The first sample of a drag only
/// anchors the path; switching to a non-pipe tool cancels the drag without
/// reverting edits already applied; masks are never written here.
pub fn drag_from_input(gi: &GameplayInputState, drag: &mut PipeDragState, pipemap: &mut PipeMap)
    requires
        old(pipemap).wf(),
        gi.cursor_cell matches Some(c) ==> pos_in_bounds(old(pipemap).size, c),
        old(drag).last matches Some(l) ==> pos_in_bounds(old(pipemap).size, l),
    ensures
        final(pipemap).wf(),
        final(pipemap).size == old(pipemap).size,
        final(pipemap).mask@ == old(pipemap).mask@,
        final(pipemap).present@ == drag_present_after(
            *old(drag),
            *gi,
            old(pipemap).present@,
            old(pipemap).size,
        ),
        final(pipemap).dirty == (old(pipemap).dirty || drag_edits(*old(drag), *gi)),
        final(drag).dragging == drag_dragging_after(*old(drag), *gi),
        final(drag).last == drag_last_after(*old(drag), *gi),
        final(drag).last matches Some(l) ==> pos_in_bounds(final(pipemap).size, l),
{
    let placing_mode = match gi.selected_tool {
        Tool::PipePlace | Tool::PipeErase => true,
        Tool::NoTool => false,
    };
    if !placing_mode {
        drag.dragging = false;
        drag.last = None;
        return ;
    }
    if gi.left_just_pressed {
        drag.dragging = true;
        drag.last = None;
    }
    if gi.left_just_released {
        drag.dragging = false;
        drag.last = None;
    }
    if !drag.dragging || !gi.left_pressed {
        return ;
    }
    let tp = match gi.cursor_cell {
        Some(c) => c,
        None => {
            return ;
        },
    };
    let last = match drag.last {
        Some(l) => l,
        None => {
            drag.last = Some(tp);
            return ;
        },
    };
    if last == tp {
        return ;
    }
    let placing = match gi.selected_tool {
        Tool::PipePlace => true,
        _ => false,
    };
    let ghost size0 = pipemap.size;
    let ghost p0 = pipemap.present@;
    if last.x == tp.x || last.y == tp.y {
        pipemap.fill_straight(last, tp, placing);
        proof {
            assert forall|i: int| 0 <= i < p0.len() implies pipemap.present@[i] == path_filled(
                p0,
                size0,
                last,
                tp,
                placing,
            )[i] by {
                lemma_index_coords(size0, i);
            }
            assert(pipemap.present@ =~= path_filled(p0, size0, last, tp, placing));
        }
    } else {
        let mid = GridPos { x: tp.x, y: last.y };
        pipemap.fill_straight(last, mid, placing);
        pipemap.fill_straight(mid, tp, placing);
        proof {
            assert forall|i: int| 0 <= i < p0.len() implies pipemap.present@[i] == path_filled(
                p0,
                size0,
                last,
                tp,
                placing,
            )[i] by {
                lemma_index_coords(size0, i);
            }
            assert(pipemap.present@ =~= path_filled(p0, size0, last, tp, placing));
        }
    }
    drag.last = Some(tp);
}

/// The color of the normal pipe view: white.
pub open spec fn spec_pipe_normal_color() -> ColorRgba {
    ColorRgba { r: 255, g: 255, b: 255, a: 255 }
}

/// The color of the normal pipe view, as executable data.
pub fn pipe_normal_color() -> (c: ColorRgba)
    ensures
        c == spec_pipe_normal_color(),
{
    ColorRgba { r: 255, g: 255, b: 255, a: 255 }
}

/// The color of the engineering pipe view: pale blue.
pub open spec fn spec_pipe_engineering_color() -> ColorRgba {
    ColorRgba { r: 153, g: 230, b: 255, a: 255 }
}

/// The color of the engineering pipe view, as executable data.
pub fn pipe_engineering_color() -> (c: ColorRgba)
    ensures
        c == spec_pipe_engineering_color(),
{
    ColorRgba { r: 153, g: 230, b: 255, a: 255 }
}

/// One reconciliation step for one cell of a pipe layer: show the sprite
/// variant selected by the mask, or show nothing.
#[derive(Clone, Copy, PartialEq, Eq, Structural, Debug)]
pub struct SyncOp {
    pub x: u32,
    pub y: u32,
    pub mask: Option<u8>,
}

/// The reconciliation ops for the current pipe state, one per cell in
/// row-major order: an upsert carrying the stored mask where pipe is present,
/// a removal where it is absent.
pub fn connectivity_ops(pipemap: &PipeMap) -> (ops: Vec<SyncOp>)
    requires
        pipemap.wf(),
    ensures
        ops@.len() == cell_count(pipemap.size),
        forall|x: int, y: int| #![trigger cell_index(pipemap.size, x, y)]
            in_bounds(pipemap.size, x, y) ==> ops@[cell_index(pipemap.size, x, y)] == (SyncOp {
                x: x as u32,
                y: y as u32,
                mask: if pipemap.present@[cell_index(pipemap.size, x, y)] {
                    Some(pipemap.mask@[cell_index(pipemap.size, x, y)])
                } else {
                    None
                },
            }),
{
    let ghost size0 = pipemap.size;
    let w = pipemap.size.w;
    let h = pipemap.size.h;
    let mut ops: Vec<SyncOp> = Vec::new();
    let mut y: u32 = 0;
    while y < h
        invariant
            pipemap.wf(),
            pipemap.size == size0,
            size0.w == w,
            size0.h == h,
            y <= h,
            ops@.len() == y as int * w as int,
            forall|xx: int, yy: int| #![trigger cell_index(size0, xx, yy)]
                in_bounds(size0, xx, yy) && cell_index(size0, xx, yy) < y as int * w as int
                    ==> ops@[cell_index(size0, xx, yy)] == (SyncOp {
                    x: xx as u32,
                    y: yy as u32,
                    mask: if pipemap.present@[cell_index(size0, xx, yy)] {
                        Some(pipemap.mask@[cell_index(size0, xx, yy)])
                    } else {
                        None
                    },
                }),
        decreases h - y,
    {
        let mut x: u32 = 0;
        while x < w
            invariant
                pipemap.wf(),
                pipemap.size == size0,
                size0.w == w,
                size0.h == h,
                y < h,
                x <= w,
                ops@.len() == y as int * w as int + x as int,
                forall|xx: int, yy: int| #![trigger cell_index(size0, xx, yy)]
                    in_bounds(size0, xx, yy) && cell_index(size0, xx, yy) < y as int * w as int
                        + x as int ==> ops@[cell_index(size0, xx, yy)] == (SyncOp {
                        x: xx as u32,
                        y: yy as u32,
                        mask: if pipemap.present@[cell_index(size0, xx, yy)] {
                            Some(pipemap.mask@[cell_index(size0, xx, yy)])
                        } else {
                            None
                        },
                    }),
            decreases w - x,
        {
            let op = if pipemap.has(x, y) {
                SyncOp { x, y, mask: Some(pipemap.get_mask(x, y)) }
            } else {
                SyncOp { x, y, mask: None }
            };
            ops.push(op);
            proof {
                assert forall|xx: int, yy: int| #![trigger cell_index(size0, xx, yy)]
                    in_bounds(size0, xx, yy) && cell_index(size0, xx, yy) < y as int * w as int
                        + x as int + 1 implies ops@[cell_index(size0, xx, yy)] == (SyncOp {
                    x: xx as u32,
                    y: yy as u32,
                    mask: if pipemap.present@[cell_index(size0, xx, yy)] {
                        Some(pipemap.mask@[cell_index(size0, xx, yy)])
                    } else {
                        None
                    },
                }) by {
                    lemma_cell_index_in_range(size0, xx, yy);
                    if cell_index(size0, xx, yy) == cell_index(size0, x as int, y as int) {
                        lemma_cell_index_injective(size0, xx, yy, x as int, y as int);
                    }
                }
            }
            x = x + 1;
        }
        proof {
            assert((y as int + 1) * (w as int) == y as int * w as int + w as int)
                by (nonlinear_arith);
        }
        y = y + 1;
    }
    proof {
        assert(h as int * w as int == cell_count(size0)) by (nonlinear_arith)
            requires
                size0.w == w,
                size0.h == h,
        ;
        assert forall|xx: int, yy: int| in_bounds(size0, xx, yy) implies ops@[cell_index(
            size0,
            xx,
            yy,
        )] == (SyncOp {
            x: xx as u32,
            y: yy as u32,
            mask: if pipemap.present@[cell_index(size0, xx, yy)] {
                Some(pipemap.mask@[cell_index(size0, xx, yy)])
            } else {
                None
            },
        }) by {
            lemma_cell_index_in_range(size0, xx, yy);
        }
    }
    ops
}

/// Reconciles one pipe visual layer with the pipe state, carrying the given
/// layer color: per cell, an upsert whose sprite variant is the stored mask
/// where pipe is present, a removal where it is absent.
pub fn sync_pipe_layer(pipemap: &PipeMap, layer: &mut LayerState, color: ColorRgba)
    requires
        pipemap.wf(),
        old(layer).wf(),
        old(layer).size == pipemap.size,
    ensures
        final(layer).wf(),
        final(layer).size == old(layer).size,
        pipe_layer_synced(final(layer).entries@, pipemap.present@, pipemap.mask@, color),
{
    let ghost size0 = pipemap.size;
    let w = pipemap.size.w;
    let h = pipemap.size.h;
    let mut y: u32 = 0;
    while y < h
        invariant
            pipemap.wf(),
            layer.wf(),
            layer.size == size0,
            pipemap.size == size0,
            size0.w == w,
            size0.h == h,
            y <= h,
            forall|xx: int, yy: int| #![trigger cell_index(size0, xx, yy)]
                in_bounds(size0, xx, yy) && cell_index(size0, xx, yy) < y as int * w as int
                    ==> layer.entries@[cell_index(size0, xx, yy)] == pipe_entry(
                    pipemap.present@[cell_index(size0, xx, yy)],
                    pipemap.mask@[cell_index(size0, xx, yy)],
                    color,
                ),
        decreases h - y,
    {
        let mut x: u32 = 0;
        while x < w
            invariant
                pipemap.wf(),
                layer.wf(),
                layer.size == size0,
                pipemap.size == size0,
                size0.w == w,
                size0.h == h,
                y < h,
                x <= w,
                forall|xx: int, yy: int| #![trigger cell_index(size0, xx, yy)]
                    in_bounds(size0, xx, yy) && cell_index(size0, xx, yy) < y as int * w as int
                        + x as int ==> layer.entries@[cell_index(size0, xx, yy)] == pipe_entry(
                        pipemap.present@[cell_index(size0, xx, yy)],
                        pipemap.mask@[cell_index(size0, xx, yy)],
                        color,
                    ),
            decreases w - x,
        {
            if pipemap.has(x, y) {
                let m = pipemap.get_mask(x, y);
                set_tile_with_index(layer, m as u32, color, x, y);
            } else {
                remove_tile_in_tilemap(layer, x, y);
            }
            proof {
                assert forall|xx: int, yy: int| #![trigger cell_index(size0, xx, yy)]
                    in_bounds(size0, xx, yy) && cell_index(size0, xx, yy) < y as int * w as int
                        + x as int + 1 implies layer.entries@[cell_index(size0, xx, yy)]
                    == pipe_entry(
                    pipemap.present@[cell_index(size0, xx, yy)],
                    pipemap.mask@[cell_index(size0, xx, yy)],
                    color,
                ) by {
                    lemma_cell_index_in_range(size0, xx, yy);
                    lemma_cell_index_in_range(size0, x as int, y as int);
                    if cell_index(size0, xx, yy) == cell_index(size0, x as int, y as int) {
                        lemma_cell_index_injective(size0, xx, yy, x as int, y as int);
                    }
                }
            }
            x = x + 1;
        }
        proof {
            assert((y as int + 1) * (w as int) == y as int * w as int + w as int)
                by (nonlinear_arith);
        }
        y = y + 1;
    }
    proof {
        assert(h as int * w as int == cell_count(size0)) by (nonlinear_arith)
            requires
                size0.w == w,
                size0.h == h,
        ;
        assert forall|i: int| 0 <= i < pipemap.present@.len() implies layer.entries@[i]
            == pipe_entry(pipemap.present@[i], pipemap.mask@[i], color) by {
            lemma_index_coords(size0, i);
        }
    }
}

/// Runs the dirty-gated resolve-and-sync pass. When presence changed since
/// the last pass, it recomputes every cell's stored mask, reconciles both
/// pipe layers — white for the normal view, pale blue for the engineering
/// view — clears the dirty flag, and returns the per-cell ops for the
/// embedding to mirror onto its own tile storage. When nothing changed, it
/// changes nothing and returns no ops.
pub fn apply_connectivity_and_tiles(
    pipemap: &mut PipeMap,
    pipes: &mut LayerState,
    pipes_eng: &mut LayerState,
) -> (ops: Vec<SyncOp>)
    requires
        old(pipemap).wf(),
        old(pipes).wf(),
        old(pipes_eng).wf(),
        old(pipes).size == old(pipemap).size,
        old(pipes_eng).size == old(pipemap).size,
    ensures
        final(pipemap).wf(),
        final(pipemap).size == old(pipemap).size,
        final(pipemap).present@ == old(pipemap).present@,
        final(pipes).wf(),
        final(pipes).size == old(pipes).size,
        final(pipes_eng).wf(),
        final(pipes_eng).size == old(pipes_eng).size,
        !old(pipemap).dirty ==> *final(pipemap) == *old(pipemap),
        !old(pipemap).dirty ==> *final(pipes) == *old(pipes),
        !old(pipemap).dirty ==> *final(pipes_eng) == *old(pipes_eng),
        !old(pipemap).dirty ==> ops@.len() == 0,
        old(pipemap).dirty ==> !final(pipemap).dirty,
        old(pipemap).dirty ==> masks_resolved(
            final(pipemap).present@,
            final(pipemap).mask@,
            final(pipemap).size,
        ),
        old(pipemap).dirty ==> pipe_layer_synced(
            final(pipes).entries@,
            final(pipemap).present@,
            final(pipemap).mask@,
            spec_pipe_normal_color(),
        ),
        old(pipemap).dirty ==> pipe_layer_synced(
            final(pipes_eng).entries@,
            final(pipemap).present@,
            final(pipemap).mask@,
            spec_pipe_engineering_color(),
        ),
        old(pipemap).dirty ==> ops@.len() == cell_count(old(pipemap).size),
        old(pipemap).dirty ==> forall|x: int, y: int| #![trigger cell_index(old(pipemap).size, x, y)]
            in_bounds(old(pipemap).size, x, y) ==> ops@[cell_index(old(pipemap).size, x, y)] == (
            SyncOp {
                x: x as u32,
                y: y as u32,
                mask: if final(pipemap).present@[cell_index(old(pipemap).size, x, y)] {
                    Some(final(pipemap).mask@[cell_index(old(pipemap).size, x, y)])
                } else {
                    None
                },
            }),
{
    if !pipemap.dirty {
        return Vec::new();
    }
    pipemap.resolve_connectivity();
    let ops = connectivity_ops(pipemap);
    sync_pipe_layer(pipemap, pipes, pipe_normal_color());
    sync_pipe_layer(pipemap, pipes_eng, pipe_engineering_color());
    pipemap.dirty = false;
    ops
}

/// Law: bit k of a cell's connectivity mask is set iff its in-bounds neighbor
/// in direction k has pipe — bit 0 above, bit 1 right, bit 2 below, bit 3
/// left; a neighbor outside the map bounds never sets a bit, since
/// `neighbor_present` is false there.
pub proof fn lemma_conn_mask_bits(p: Seq<bool>, size: MapSize, x: int, y: int)
    ensures
        conn_mask(p, size, x, y) & 1 == 1 <==> neighbor_present(p, size, x, y - 1),
        conn_mask(p, size, x, y) & 2 == 2 <==> neighbor_present(p, size, x + 1, y),
        conn_mask(p, size, x, y) & 4 == 4 <==> neighbor_present(p, size, x, y + 1),
        conn_mask(p, size, x, y) & 8 == 8 <==> neighbor_present(p, size, x - 1, y),
{
    let a: u8 = if neighbor_present(p, size, x, y - 1) {
        1u8
    } else {
        0u8
    };
    let b: u8 = if neighbor_present(p, size, x + 1, y) {
        2u8
    } else {
        0u8
    };
    let c: u8 = if neighbor_present(p, size, x, y + 1) {
        4u8
    } else {
        0u8
    };
    let d: u8 = if neighbor_present(p, size, x - 1, y) {
        8u8
    } else {
        0u8
    };
    let m: u8 = conn_mask(p, size, x, y);
    assert(m == (a + b + c + d) as u8);
    assert((m & 1 == 1 <==> a == 1) && (m & 2 == 2 <==> b == 2) && (m & 4 == 4 <==> c == 4) && (m
        & 8 == 8 <==> d == 8)) by (bit_vector)
        requires
            m == (a + b + c + d) as u8,
            a == 0 || a == 1,
            b == 0 || b == 2,
            c == 0 || c == 4,
            d == 0 || d == 8,
    ;
}

/// Law: connectivity resolution is idempotent — recomputing the masks twice
/// without intervening presence edits yields identical masks, since any two
/// resolved mask states over the same presence are equal.
pub proof fn lemma_resolve_idempotent(p: Seq<bool>, m1: Seq<u8>, m2: Seq<u8>, size: MapSize)
    requires
        m1.len() == cell_count(size),
        m2.len() == cell_count(size),
        masks_resolved(p, m1, size),
        masks_resolved(p, m2, size),
    ensures
        m1 == m2,
{
    assert forall|i: int| 0 <= i < m1.len() implies m1[i] == m2[i] by {
        lemma_index_coords(size, i);
    }
    assert(m1 =~= m2);
}

/// Law: filling a path is idempotent — applying the same fill twice leaves
/// exactly the state one application leaves, so placing pipe over cells that
/// already have it is observably identical to placing it once.
pub proof fn lemma_fill_idempotent(p: Seq<bool>, size: MapSize, a: GridPos, b: GridPos, v: bool)
    ensures
        path_filled(path_filled(p, size, a, b, v), size, a, b, v) == path_filled(p, size, a, b, v),
{
    let q = path_filled(p, size, a, b, v);
    assert(path_filled(q, size, a, b, v) =~= q);
}

/// Law: switching the tool away from a pipe tool mid-drag stops future edits
/// — a frame without a pipe tool edits nothing and fully resets the drag
/// state — while cells already filled during the drag keep their value.
pub proof fn lemma_tool_switch_cancels(
    d: PipeDragState,
    gi: GameplayInputState,
    p: Seq<bool>,
    size: MapSize,
)
    requires
        !is_pipe_tool(gi.selected_tool),
    ensures
        !drag_edits(d, gi),
        !drag_dragging_after(d, gi),
        drag_last_after(d, gi) is None,
        drag_present_after(d, gi, p, size) == p,
{
}

/// A presence state with the pipe at (x, y) erased.
pub open spec fn erased(p: Seq<bool>, size: MapSize, x: int, y: int) -> Seq<bool> {
    p.update(cell_index(size, x, y), false)
}

/// Erasing one cell leaves every presence probe other than the erased cell's
/// own unchanged.
proof fn lemma_erase_preserves_neighbor(
    p: Seq<bool>,
    size: MapSize,
    ex: int,
    ey: int,
    x: int,
    y: int,
)
    requires
        p.len() == cell_count(size),
        in_bounds(size, ex, ey),
        x != ex || y != ey,
    ensures
        neighbor_present(erased(p, size, ex, ey), size, x, y) == neighbor_present(p, size, x, y),
{
    if in_bounds(size, x, y) {
        lemma_cell_index_in_range(size, x, y);
        lemma_cell_index_in_range(size, ex, ey);
        if cell_index(size, x, y) == cell_index(size, ex, ey) {
            lemma_cell_index_injective(size, x, y, ex, ey);
        }
    }
}

/// Law: erasing one interior cell whose four neighbors all have pipe clears
/// exactly that cell's stored mask to 0, removes from each of the four
/// neighbors' connectivity exactly the bit pointing back at the erased cell,
/// and leaves every other cell's stored mask unchanged.
pub proof fn lemma_erase_interior(p: Seq<bool>, size: MapSize, x: int, y: int)
    requires
        p.len() == cell_count(size),
        in_bounds(size, x, y),
        in_bounds(size, x, y - 1),
        in_bounds(size, x + 1, y),
        in_bounds(size, x, y + 1),
        in_bounds(size, x - 1, y),
        p[cell_index(size, x, y)],
        p[cell_index(size, x, y - 1)],
        p[cell_index(size, x + 1, y)],
        p[cell_index(size, x, y + 1)],
        p[cell_index(size, x - 1, y)],
    ensures
        stored_mask(erased(p, size, x, y), size, x, y) == 0,
        conn_mask(erased(p, size, x, y), size, x, y - 1) == conn_mask(p, size, x, y - 1) - 4,
        conn_mask(erased(p, size, x, y), size, x + 1, y) == conn_mask(p, size, x + 1, y) - 8,
        conn_mask(erased(p, size, x, y), size, x, y + 1) == conn_mask(p, size, x, y + 1) - 1,
        conn_mask(erased(p, size, x, y), size, x - 1, y) == conn_mask(p, size, x - 1, y) - 2,
        forall|xx: int, yy: int|
            in_bounds(size, xx, yy) && !(xx == x && yy == y) && !(xx == x && yy == y - 1) && !(xx
                == x + 1 && yy == y) && !(xx == x && yy == y + 1) && !(xx == x - 1 && yy == y)
                ==> stored_mask(erased(p, size, x, y), size, xx, yy) == stored_mask(
                p,
                size,
                xx,
                yy,
            ),
{
    let q = erased(p, size, x, y);
    lemma_cell_index_in_range(size, x, y);
    assert(!q[cell_index(size, x, y)]);
    assert(neighbor_present(p, size, x, y));
    assert(!neighbor_present(q, size, x, y));
    lemma_erase_preserves_neighbor(p, size, x, y, x, y - 2);
    lemma_erase_preserves_neighbor(p, size, x, y, x + 1, y - 1);
    lemma_erase_preserves_neighbor(p, size, x, y, x - 1, y - 1);
    lemma_erase_preserves_neighbor(p, size, x, y, x + 2, y);
    lemma_erase_preserves_neighbor(p, size, x, y, x + 1, y + 1);
    lemma_erase_preserves_neighbor(p, size, x, y, x, y + 2);
    lemma_erase_preserves_neighbor(p, size, x, y, x - 1, y + 1);
    lemma_erase_preserves_neighbor(p, size, x, y, x - 2, y);
    assert forall|xx: int, yy: int|
        in_bounds(size, xx, yy) && !(xx == x && yy == y) && !(xx == x && yy == y - 1) && !(xx == x
            + 1 && yy == y) && !(xx == x && yy == y + 1) && !(xx == x - 1 && yy
            == y) implies stored_mask(erased(p, size, x, y), size, xx, yy) == stored_mask(
        p,
        size,
        xx,
        yy,
    ) by {
        lemma_cell_index_in_range(size, xx, yy);
        if cell_index(size, xx, yy) == cell_index(size, x, y) {
            lemma_cell_index_injective(size, xx, yy, x, y);
        }
        lemma_erase_preserves_neighbor(p, size, x, y, xx, yy - 1);
        lemma_erase_preserves_neighbor(p, size, x, y, xx + 1, yy);
        lemma_erase_preserves_neighbor(p, size, x, y, xx, yy + 1);
        lemma_erase_preserves_neighbor(p, size, x, y, xx - 1, yy);
    }
}

} // verus!

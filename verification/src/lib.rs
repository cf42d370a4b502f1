//! Logical core of a grid-based construction game: a fixed-size tile map with
//! base and overlay layers, a pipe network with per-cell presence and derived
//! four-neighbor connectivity masks, a drag-gesture interpreter that rasterizes
//! pointer paths into straight and L-shaped fills, and a reconciliation layer
//! that keeps per-cell visual entries in step with the logical state.

pub mod events;
pub mod input;
pub mod map;
pub mod piping;
pub mod placement;
pub mod render;
pub mod sync;
pub mod tile;

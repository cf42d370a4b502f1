//! The per-frame input snapshot the gameplay logic consumes. The embedding
//! collects raw device state, resolves the pointer to a grid cell, and fills
//! this snapshot; the logic here never reads devices directly.

use vstd::prelude::*;

use crate::sync::GridPos;

verus! {

/// Player tool modes for gameplay interactions.
#[derive(Clone, Copy, PartialEq, Eq, Structural, Debug)]
pub enum Tool {
    NoTool,
    PipePlace,
    PipeErase,
}

/// Whether the tool claims the primary pointer button for pipe editing.
pub open spec fn is_pipe_tool(t: Tool) -> bool {
    t == Tool::PipePlace || t == Tool::PipeErase
}

/// Transient gameplay input derived from raw inputs each frame.
///
/// `cursor_cell` is the pointer position already snapped to a grid cell by the
/// embedding, and `None` when the pointer is unavailable or off the map; the
/// continuous-to-discrete conversion happens outside this crate.
#[derive(Clone, Copy, PartialEq, Eq, Structural, Debug)]
pub struct GameplayInputState {
    pub selected_tool: Tool,
    pub left_just_pressed: bool,
    pub left_pressed: bool,
    pub left_just_released: bool,
    pub right_just_pressed: bool,
    pub right_pressed: bool,
    pub right_just_released: bool,
    pub cursor_cell: Option<GridPos>,
}

impl Default for GameplayInputState {
    /// The idle snapshot: no tool selected, no button activity, no cursor.
    fn default() -> (s: GameplayInputState)
        ensures
            s == (GameplayInputState {
                selected_tool: Tool::NoTool,
                left_just_pressed: false,
                left_pressed: false,
                left_just_released: false,
                right_just_pressed: false,
                right_pressed: false,
                right_just_released: false,
                cursor_cell: None,
            }),
    {
        GameplayInputState {
            selected_tool: Tool::NoTool,
            left_just_pressed: false,
            left_pressed: false,
            left_just_released: false,
            right_just_pressed: false,
            right_pressed: false,
            right_just_released: false,
            cursor_cell: None,
        }
    }
}

} // verus!

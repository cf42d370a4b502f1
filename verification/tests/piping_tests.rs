use pipegrid::input::{GameplayInputState, Tool};
use pipegrid::piping::{drag_from_input, PipeDragState, PipeMap};
use pipegrid::sync::GridPos;

fn frame(
    tool: Tool,
    just_pressed: bool,
    pressed: bool,
    just_released: bool,
    cursor: Option<(u32, u32)>,
) -> GameplayInputState {
    let mut gi = GameplayInputState::default();
    gi.selected_tool = tool;
    gi.left_just_pressed = just_pressed;
    gi.left_pressed = pressed;
    gi.left_just_released = just_released;
    gi.cursor_cell = cursor.map(|(x, y)| GridPos { x, y });
    gi
}

fn cells_present(pipe: &PipeMap, w: u32, h: u32) -> Vec<(u32, u32)> {
    let mut out = Vec::new();
    for y in 0..h {
        for x in 0..w {
            if pipe.has(x, y) {
                out.push((x, y));
            }
        }
    }
    out
}

#[test]
fn new_pipemap_is_empty_and_clean() {
    let pipe = PipeMap::new((6, 5));
    assert_eq!(pipe.present.len(), 30);
    assert_eq!(pipe.mask.len(), 30);
    assert!(!pipe.dirty);
    for y in 0..5 {
        for x in 0..6 {
            assert!(!pipe.has(x, y));
            assert_eq!(pipe.get_mask(x, y), 0);
        }
    }
}

#[test]
fn set_marks_dirty_and_changes_one_cell() {
    let mut pipe = PipeMap::new((4, 4));
    pipe.set(1, 2, true);
    assert!(pipe.dirty);
    assert_eq!(cells_present(&pipe, 4, 4), vec![(1, 2)]);
}

#[test]
fn fill_straight_covers_inclusive_segment_both_directions() {
    let mut pipe = PipeMap::new((6, 6));
    pipe.fill_straight(GridPos { x: 1, y: 4 }, GridPos { x: 1, y: 2 }, true);
    assert_eq!(cells_present(&pipe, 6, 6), vec![(1, 2), (1, 3), (1, 4)]);
    let mut row = PipeMap::new((6, 6));
    row.fill_straight(GridPos { x: 4, y: 0 }, GridPos { x: 2, y: 0 }, true);
    assert_eq!(cells_present(&row, 6, 6), vec![(2, 0), (3, 0), (4, 0)]);
}

#[test]
fn fill_straight_ignores_unaligned_endpoints() {
    let mut pipe = PipeMap::new((6, 6));
    pipe.fill_straight(GridPos { x: 0, y: 0 }, GridPos { x: 2, y: 3 }, true);
    assert_eq!(cells_present(&pipe, 6, 6), vec![]);
    assert!(!pipe.dirty);
}

#[test]
fn straight_drag_places_segment() {
    let mut pipe = PipeMap::new((8, 8));
    let mut drag = PipeDragState::default();
    let press = frame(Tool::PipePlace, true, true, false, Some((2, 2)));
    drag_from_input(&press, &mut drag, &mut pipe);
    assert!(drag.dragging);
    assert_eq!(drag.last, Some(GridPos { x: 2, y: 2 }));
    // the first sample only anchors the path
    assert_eq!(cells_present(&pipe, 8, 8), vec![]);
    let moved = frame(Tool::PipePlace, false, true, false, Some((2, 5)));
    drag_from_input(&moved, &mut drag, &mut pipe);
    assert_eq!(cells_present(&pipe, 8, 8), vec![(2, 2), (2, 3), (2, 4), (2, 5)]);
    assert_eq!(drag.last, Some(GridPos { x: 2, y: 5 }));
    assert!(pipe.dirty);
}

#[test]
fn diagonal_drag_turns_at_corner() {
    let mut pipe = PipeMap::new((8, 8));
    let mut drag = PipeDragState::default();
    let press = frame(Tool::PipePlace, true, true, false, Some((0, 0)));
    drag_from_input(&press, &mut drag, &mut pipe);
    let moved = frame(Tool::PipePlace, false, true, false, Some((2, 2)));
    drag_from_input(&moved, &mut drag, &mut pipe);
    assert_eq!(cells_present(&pipe, 8, 8), vec![(0, 0), (1, 0), (2, 0), (2, 1), (2, 2)]);
}

#[test]
fn reversed_diagonal_drag_turns_at_other_corner() {
    let mut pipe = PipeMap::new((8, 8));
    let mut drag = PipeDragState::default();
    let press = frame(Tool::PipePlace, true, true, false, Some((2, 2)));
    drag_from_input(&press, &mut drag, &mut pipe);
    let moved = frame(Tool::PipePlace, false, true, false, Some((0, 0)));
    drag_from_input(&moved, &mut drag, &mut pipe);
    assert_eq!(cells_present(&pipe, 8, 8), vec![(0, 0), (0, 1), (0, 2), (1, 2), (2, 2)]);
}

#[test]
fn erase_drag_clears_cells() {
    let mut pipe = PipeMap::new((8, 8));
    pipe.fill_straight(GridPos { x: 1, y: 1 }, GridPos { x: 5, y: 1 }, true);
    let mut drag = PipeDragState::default();
    let press = frame(Tool::PipeErase, true, true, false, Some((2, 1)));
    drag_from_input(&press, &mut drag, &mut pipe);
    let moved = frame(Tool::PipeErase, false, true, false, Some((4, 1)));
    drag_from_input(&moved, &mut drag, &mut pipe);
    assert_eq!(cells_present(&pipe, 8, 8), vec![(1, 1), (5, 1)]);
}

#[test]
fn press_and_release_without_movement_edits_nothing() {
    let mut pipe = PipeMap::new((8, 8));
    let mut drag = PipeDragState::default();
    let press = frame(Tool::PipePlace, true, true, false, Some((3, 3)));
    drag_from_input(&press, &mut drag, &mut pipe);
    let release = frame(Tool::PipePlace, false, false, true, Some((3, 3)));
    drag_from_input(&release, &mut drag, &mut pipe);
    assert!(!drag.dragging);
    assert_eq!(drag.last, None);
    assert_eq!(cells_present(&pipe, 8, 8), vec![]);
    assert!(!pipe.dirty);
}

#[test]
fn press_and_release_in_same_frame_edits_nothing() {
    let mut pipe = PipeMap::new((8, 8));
    let mut drag = PipeDragState::default();
    let both = frame(Tool::PipePlace, true, true, true, Some((3, 3)));
    drag_from_input(&both, &mut drag, &mut pipe);
    assert!(!drag.dragging);
    assert_eq!(drag.last, None);
    assert_eq!(cells_present(&pipe, 8, 8), vec![]);
}

#[test]
fn samples_on_same_cell_edit_nothing() {
    let mut pipe = PipeMap::new((8, 8));
    let mut drag = PipeDragState::default();
    let press = frame(Tool::PipePlace, true, true, false, Some((3, 3)));
    drag_from_input(&press, &mut drag, &mut pipe);
    let held = frame(Tool::PipePlace, false, true, false, Some((3, 3)));
    drag_from_input(&held, &mut drag, &mut pipe);
    drag_from_input(&held, &mut drag, &mut pipe);
    assert_eq!(cells_present(&pipe, 8, 8), vec![]);
    assert_eq!(drag.last, Some(GridPos { x: 3, y: 3 }));
}

#[test]
fn cursor_off_map_skips_the_sample_but_keeps_the_drag() {
    let mut pipe = PipeMap::new((8, 8));
    let mut drag = PipeDragState::default();
    let press = frame(Tool::PipePlace, true, true, false, Some((1, 1)));
    drag_from_input(&press, &mut drag, &mut pipe);
    let off = frame(Tool::PipePlace, false, true, false, None);
    drag_from_input(&off, &mut drag, &mut pipe);
    assert!(drag.dragging);
    assert_eq!(drag.last, Some(GridPos { x: 1, y: 1 }));
    assert_eq!(cells_present(&pipe, 8, 8), vec![]);
    let moved = frame(Tool::PipePlace, false, true, false, Some((1, 3)));
    drag_from_input(&moved, &mut drag, &mut pipe);
    assert_eq!(cells_present(&pipe, 8, 8), vec![(1, 1), (1, 2), (1, 3)]);
}

#[test]
fn tool_switch_mid_drag_stops_edits_but_keeps_cells() {
    let mut pipe = PipeMap::new((8, 8));
    let mut drag = PipeDragState::default();
    let press = frame(Tool::PipePlace, true, true, false, Some((2, 2)));
    drag_from_input(&press, &mut drag, &mut pipe);
    let moved = frame(Tool::PipePlace, false, true, false, Some((2, 5)));
    drag_from_input(&moved, &mut drag, &mut pipe);
    let filled = cells_present(&pipe, 8, 8);
    assert_eq!(filled, vec![(2, 2), (2, 3), (2, 4), (2, 5)]);
    // the tool changes while the button is still held
    let switched = frame(Tool::NoTool, false, true, false, Some((2, 7)));
    drag_from_input(&switched, &mut drag, &mut pipe);
    assert!(!drag.dragging);
    assert_eq!(drag.last, None);
    assert_eq!(cells_present(&pipe, 8, 8), filled);
    // further movement with the non-pipe tool still edits nothing
    let moved_again = frame(Tool::NoTool, false, true, false, Some((5, 5)));
    drag_from_input(&moved_again, &mut drag, &mut pipe);
    assert_eq!(cells_present(&pipe, 8, 8), filled);
}

#[test]
fn replacing_placed_cells_is_observably_identical() {
    let mut pipe = PipeMap::new((8, 8));
    let mut drag = PipeDragState::default();
    let press = frame(Tool::PipePlace, true, true, false, Some((1, 1)));
    let moved = frame(Tool::PipePlace, false, true, false, Some((4, 1)));
    let release = frame(Tool::PipePlace, false, false, true, Some((4, 1)));
    drag_from_input(&press, &mut drag, &mut pipe);
    drag_from_input(&moved, &mut drag, &mut pipe);
    drag_from_input(&release, &mut drag, &mut pipe);
    pipe.resolve_connectivity();
    let present_once = pipe.present.clone();
    let mask_once = pipe.mask.clone();
    // drag over the very same cells again
    drag_from_input(&press, &mut drag, &mut pipe);
    drag_from_input(&moved, &mut drag, &mut pipe);
    drag_from_input(&release, &mut drag, &mut pipe);
    pipe.resolve_connectivity();
    assert_eq!(pipe.present, present_once);
    assert_eq!(pipe.mask, mask_once);
}

#[test]
fn masks_match_neighbors_on_a_plus_shape() {
    let mut pipe = PipeMap::new((5, 5));
    for &(x, y) in &[(2u32, 2u32), (2, 1), (3, 2), (2, 3), (1, 2)] {
        pipe.set(x, y, true);
    }
    pipe.resolve_connectivity();
    // center sees all four neighbors
    assert_eq!(pipe.get_mask(2, 2), 15);
    // each arm sees only the center: above has its below-bit, and so on
    assert_eq!(pipe.get_mask(2, 1), 4);
    assert_eq!(pipe.get_mask(3, 2), 8);
    assert_eq!(pipe.get_mask(2, 3), 1);
    assert_eq!(pipe.get_mask(1, 2), 2);
    // absent cells keep a cleared mask
    assert_eq!(pipe.get_mask(0, 0), 0);
    assert_eq!(pipe.get_mask(4, 4), 0);
}

#[test]
fn map_border_neighbors_never_set_bits() {
    let mut pipe = PipeMap::new((3, 3));
    for y in 0..3 {
        for x in 0..3 {
            pipe.set(x, y, true);
        }
    }
    pipe.resolve_connectivity();
    // the corner cell has only right and below in bounds
    assert_eq!(pipe.get_mask(0, 0), 2 | 4);
    assert_eq!(pipe.get_mask(2, 0), 8 | 4);
    assert_eq!(pipe.get_mask(0, 2), 1 | 2);
    assert_eq!(pipe.get_mask(2, 2), 1 | 8);
    // edge cells miss exactly the out-of-bounds bit
    assert_eq!(pipe.get_mask(1, 0), 2 | 4 | 8);
    assert_eq!(pipe.get_mask(1, 2), 1 | 2 | 8);
    assert_eq!(pipe.get_mask(2, 1), 1 | 4 | 8);
    // the center sees all four
    assert_eq!(pipe.get_mask(1, 1), 15);
}

#[test]
fn resolving_twice_yields_identical_masks() {
    let mut pipe = PipeMap::new((6, 6));
    pipe.fill_straight(GridPos { x: 0, y: 2 }, GridPos { x: 5, y: 2 }, true);
    pipe.fill_straight(GridPos { x: 3, y: 0 }, GridPos { x: 3, y: 5 }, true);
    pipe.resolve_connectivity();
    let first = pipe.mask.clone();
    pipe.resolve_connectivity();
    assert_eq!(pipe.mask, first);
}

#[test]
fn erase_interior_cell_reduces_exactly_the_back_bits() {
    let mut pipe = PipeMap::new((5, 5));
    for &(x, y) in &[(2u32, 2u32), (2, 1), (3, 2), (2, 3), (1, 2)] {
        pipe.set(x, y, true);
    }
    pipe.resolve_connectivity();
    let before = [
        pipe.get_mask(2, 1),
        pipe.get_mask(3, 2),
        pipe.get_mask(2, 3),
        pipe.get_mask(1, 2),
    ];
    pipe.set(2, 2, false);
    pipe.resolve_connectivity();
    // the erased cell's own mask is cleared
    assert_eq!(pipe.get_mask(2, 2), 0);
    // each neighbor loses exactly the bit pointing back at the erased cell
    assert_eq!(pipe.get_mask(2, 1), before[0] - 4);
    assert_eq!(pipe.get_mask(3, 2), before[1] - 8);
    assert_eq!(pipe.get_mask(2, 3), before[2] - 1);
    assert_eq!(pipe.get_mask(1, 2), before[3] - 2);
    // untouched cells keep their masks
    assert_eq!(pipe.get_mask(0, 0), 0);
    assert_eq!(pipe.get_mask(4, 4), 0);
}

#[test]
fn one_cell_map_never_connects() {
    let mut pipe = PipeMap::new((1, 1));
    pipe.set(0, 0, true);
    pipe.resolve_connectivity();
    assert!(pipe.has(0, 0));
    assert_eq!(pipe.get_mask(0, 0), 0);
}

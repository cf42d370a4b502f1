use pipegrid::events::{PlaceTile, RemoveTile};
use pipegrid::input::{GameplayInputState, Tool};
use pipegrid::map::{MapSize, MapState};
use pipegrid::piping::PipeDragState;
use pipegrid::tile::{ColorRgba, TileId, TileLayer, Tileset};

#[test]
fn new_map_is_empty() {
    let map = MapState::new(MapSize { w: 4, h: 3 });
    assert_eq!(map.size, MapSize { w: 4, h: 3 });
    assert_eq!(map.base.len(), 12);
    assert_eq!(map.overlay.len(), 12);
    for y in 0..3 {
        for x in 0..4 {
            assert_eq!(map.get_base(x, y), TileId::Empty);
            assert_eq!(map.get_overlay(x, y), None);
        }
    }
}

#[test]
fn idx_is_row_major() {
    let map = MapState::new(MapSize { w: 5, h: 4 });
    assert_eq!(map.idx(0, 0), 0);
    assert_eq!(map.idx(4, 0), 4);
    assert_eq!(map.idx(0, 1), 5);
    assert_eq!(map.idx(3, 2), 13);
    assert_eq!(map.idx(4, 3), 19);
}

#[test]
fn set_base_changes_only_that_cell() {
    let mut map = MapState::new(MapSize { w: 4, h: 4 });
    map.set_base(2, 1, TileId::Dirt);
    for y in 0..4 {
        for x in 0..4 {
            let expect = if x == 2 && y == 1 { TileId::Dirt } else { TileId::Empty };
            assert_eq!(map.get_base(x, y), expect);
            assert_eq!(map.get_overlay(x, y), None);
        }
    }
}

#[test]
fn set_overlay_changes_only_that_cell() {
    let mut map = MapState::new(MapSize { w: 4, h: 4 });
    map.set_overlay(0, 3, Some(TileId::Marker));
    for y in 0..4 {
        for x in 0..4 {
            let expect = if x == 0 && y == 3 { Some(TileId::Marker) } else { None };
            assert_eq!(map.get_overlay(x, y), expect);
            assert_eq!(map.get_base(x, y), TileId::Empty);
        }
    }
    map.set_overlay(0, 3, None);
    assert_eq!(map.get_overlay(0, 3), None);
}

#[test]
fn one_by_one_map_works() {
    let mut map = MapState::new(MapSize { w: 1, h: 1 });
    assert_eq!(map.idx(0, 0), 0);
    map.set_base(0, 0, TileId::Dirt);
    assert_eq!(map.get_base(0, 0), TileId::Dirt);
}

#[test]
fn default_tileset_has_three_defs() {
    let tileset = Tileset::default();
    assert_eq!(tileset.defs.len(), 3);
    assert_eq!(tileset.defs[0].id, TileId::Empty);
    assert_eq!(tileset.defs[1].id, TileId::Dirt);
    assert_eq!(tileset.defs[2].id, TileId::Marker);
}

#[test]
fn tileset_def_finds_each_kind() {
    let tileset = Tileset::default();
    let empty = tileset.def(TileId::Empty);
    assert_eq!(empty.layer, TileLayer::Base);
    assert_eq!(empty.color, ColorRgba { r: 0, g: 0, b: 0, a: 0 });
    let dirt = tileset.def(TileId::Dirt);
    assert_eq!(dirt.layer, TileLayer::Base);
    assert_eq!(dirt.color, ColorRgba { r: 140, g: 107, b: 89, a: 255 });
    let marker = tileset.def(TileId::Marker);
    assert_eq!(marker.layer, TileLayer::Overlay);
    assert_eq!(marker.color, ColorRgba { r: 255, g: 255, b: 0, a: 255 });
}

#[test]
fn tileset_def_returns_first_match() {
    let base = Tileset::default();
    let mut defs = Vec::new();
    for d in &base.defs {
        defs.push(*d);
    }
    defs.push(pipegrid::tile::TileDef {
        id: TileId::Dirt,
        layer: TileLayer::Overlay,
        color: ColorRgba { r: 1, g: 2, b: 3, a: 4 },
    });
    let tileset = Tileset { defs };
    assert_eq!(tileset.def(TileId::Dirt).layer, TileLayer::Base);
}

#[test]
fn default_input_snapshot_is_idle() {
    let gi = GameplayInputState::default();
    assert_eq!(gi.selected_tool, Tool::NoTool);
    assert!(!gi.left_just_pressed);
    assert!(!gi.left_pressed);
    assert!(!gi.left_just_released);
    assert!(!gi.right_just_pressed);
    assert!(!gi.right_pressed);
    assert!(!gi.right_just_released);
    assert_eq!(gi.cursor_cell, None);
}

#[test]
fn default_drag_state_is_idle() {
    let drag = PipeDragState::default();
    assert!(!drag.dragging);
    assert_eq!(drag.last, None);
}

#[test]
fn placement_events_carry_their_fields() {
    let place = PlaceTile { x: 3, y: 7, tile: TileId::Dirt };
    assert_eq!((place.x, place.y, place.tile), (3, 7, TileId::Dirt));
    let remove = RemoveTile { x: 1, y: 2 };
    assert_eq!((remove.x, remove.y), (1, 2));
}

use ddnet_client::tile_layer::{
    cell_at, prepare_tile_layer, MapTile, MapTileLayerDetail, SpeedupTile, SwitchTile, TeleTile,
    TileLayerKind, TILE_INDEX_BYTES,
};

fn design() -> TileLayerKind {
    TileLayerKind {
        is_game: false,
        is_front: false,
        is_switch: false,
        is_tele: false,
        is_speedup: false,
        is_tune: false,
    }
}

fn tile(index: u8) -> MapTile {
    MapTile { index, flags: 0, skip: 0 }
}

#[test]
fn single_tile_layer_gets_tile_and_corner() {
    let tiles = vec![tile(5)];
    let up = prepare_tile_layer(1, 1, 0, design(), &tiles, &MapTileLayerDetail::Tile, 0).unwrap();
    assert_eq!(up.tiles.len(), 2);
    assert_eq!(up.indices_count, 12);
    assert!(up.textured);
    assert_eq!(up.tex_coords.len(), 2);
    let v = &up.visuals;
    assert_eq!(v.tiles_of_layer.len(), 1);
    assert!(v.tiles_of_layer[0].do_draw());
    assert_eq!(v.tiles_of_layer[0].index_buffer_byte_offset(), 0);
    assert!(v.border_top_left.do_draw());
    assert_eq!(v.border_top_left.index_buffer_byte_offset(), TILE_INDEX_BYTES);
    assert!(!v.border_kill_tile.do_draw());
}

#[test]
fn game_layer_adds_kill_tile() {
    let mut kind = design();
    kind.is_game = true;
    let tiles = vec![tile(1)];
    let up = prepare_tile_layer(1, 1, -1, kind, &tiles, &MapTileLayerDetail::Tile, 0).unwrap();
    assert_eq!(up.tiles.len(), 3);
    assert_eq!(up.indices_count, 18);
    assert!(up.textured);
    assert!(up.visuals.border_kill_tile.do_draw());
    assert_eq!(up.visuals.border_kill_tile.index_buffer_byte_offset(), TILE_INDEX_BYTES);
    assert_eq!(up.visuals.border_top_left.index_buffer_byte_offset(), 2 * TILE_INDEX_BYTES);
}

#[test]
fn untextured_layer_has_no_texture_coordinates() {
    let tiles = vec![tile(2), tile(0), tile(0), tile(0)];
    let up = prepare_tile_layer(2, 2, -1, design(), &tiles, &MapTileLayerDetail::Tile, 0).unwrap();
    assert!(!up.textured);
    assert_eq!(up.tex_coords.len(), 0);
    // the tile itself and the top-left corner
    assert_eq!(up.tiles.len(), 2);
    assert!(up.visuals.tiles_of_layer[0].do_draw());
    assert!(!up.visuals.tiles_of_layer[1].do_draw());
}

#[test]
fn empty_layer_uploads_nothing() {
    let tiles = vec![tile(0), tile(0)];
    assert!(prepare_tile_layer(2, 1, -1, design(), &tiles, &MapTileLayerDetail::Tile, 0).is_none());
    assert!(prepare_tile_layer(0, 1, -1, design(), &tiles, &MapTileLayerDetail::Tile, 0).is_none());
}

#[test]
fn switch_overlays_show_number_and_delay() {
    let mut kind = design();
    kind.is_switch = true;
    let tiles = vec![tile(0)];
    let detail = MapTileLayerDetail::Switch(vec![SwitchTile {
        number: 3,
        tile_type: 22,
        flags: 1,
        delay: 4,
    }]);
    assert_eq!(cell_at(&kind, &tiles, &detail, 0, 0), (8, 1));
    assert_eq!(cell_at(&kind, &tiles, &detail, 0, 1), (3, 0));
    assert_eq!(cell_at(&kind, &tiles, &detail, 0, 2), (4, 0));
}

#[test]
fn tele_checkins_hide_their_number() {
    let mut kind = design();
    kind.is_tele = true;
    let tiles = vec![tile(0)];
    let detail = MapTileLayerDetail::Tele(vec![TeleTile { number: 5, tile_type: 31 }]);
    assert_eq!(cell_at(&kind, &tiles, &detail, 0, 1), (0, 0));
    assert_eq!(cell_at(&kind, &tiles, &detail, 0, 0), (31, 0));
    let detail = MapTileLayerDetail::Tele(vec![TeleTile { number: 5, tile_type: 10 }]);
    assert_eq!(cell_at(&kind, &tiles, &detail, 0, 1), (5, 0));
}

#[test]
fn speedup_without_force_is_empty() {
    let mut kind = design();
    kind.is_speedup = true;
    let tiles = vec![tile(0)];
    let detail = MapTileLayerDetail::Speedup(vec![SpeedupTile {
        force: 0,
        max_speed: 9,
        tile_type: 28,
        angle: 90,
    }]);
    assert_eq!(cell_at(&kind, &tiles, &detail, 0, 1), (0, 0));
    let detail = MapTileLayerDetail::Speedup(vec![SpeedupTile {
        force: 2,
        max_speed: 9,
        tile_type: 28,
        angle: 90,
    }]);
    assert_eq!(cell_at(&kind, &tiles, &detail, 0, 1), (2, 0));
    assert_eq!(cell_at(&kind, &tiles, &detail, 0, 2), (9, 0));
    assert_eq!(cell_at(&kind, &tiles, &detail, 0, 0), (28, 0));
}

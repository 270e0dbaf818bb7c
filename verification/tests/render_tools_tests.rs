use ddnet_client::render_tools::{LayerRenderFlag, RenderTools, TileMapDraw, TileRenderFlag};
use ddnet_client::tile_geometry::TILE_FLAG_OPAQUE;
use ddnet_client::tile_layer::MapTile;

fn t(index: u8, flags: u8, skip: u8) -> MapTile {
    MapTile { index, flags, skip }
}

#[test]
fn flag_bits() {
    assert_eq!(LayerRenderFlag::Opaque.bits(), 1);
    assert_eq!(LayerRenderFlag::Transparent.bits(), 2);
    assert_eq!(TileRenderFlag::Extend.bits(), 4);
}

#[test]
fn tile_map_draws_non_empty_tiles_of_the_pass() {
    // 3 x 1 layer: an opaque tile, an empty cell, a transparent tile
    let tiles = vec![t(17, TILE_FLAG_OPAQUE, 0), t(0, 0, 0), t(2, 0, 0)];
    let draws = RenderTools::render_tile_map(&tiles, 3, 1, 0, 0, 3, 1, 2, true);
    assert!(draws == vec![TileMapDraw { x: 2, y: 0, index: 2, flags: 0, tx: 2, ty: 0 }]);
    let draws = RenderTools::render_tile_map(&tiles, 3, 1, 0, 0, 3, 1, 1, true);
    assert!(
        draws == vec![TileMapDraw { x: 0, y: 0, index: 17, flags: TILE_FLAG_OPAQUE, tx: 1, ty: 1 }]
    );
    // a color that is not fully opaque makes every tile transparent
    let draws = RenderTools::render_tile_map(&tiles, 3, 1, 0, 0, 3, 1, 2, false);
    assert_eq!(draws.len(), 2);
}

#[test]
fn skip_jumps_over_cells() {
    let tiles = vec![t(1, 0, 1), t(5, 0, 0), t(3, 0, 0)];
    let draws = RenderTools::render_tile_map(&tiles, 3, 1, 0, 0, 3, 1, 3, false);
    assert_eq!(draws.len(), 2);
    assert_eq!((draws[0].x, draws[1].x), (0, 2));
}

#[test]
fn extend_repeats_the_border_cells() {
    let tiles = vec![t(1, 0, 0), t(2, 0, 0)];
    let draws = RenderTools::render_tile_map(&tiles, 2, 1, -1, -1, 3, 1, 2 | 4, false);
    let seen: Vec<(i32, i32, u8)> = draws.iter().map(|d| (d.x, d.y, d.index)).collect();
    assert_eq!(seen, vec![(-1, -1, 1), (0, -1, 1), (1, -1, 2), (2, -1, 2), (-1, 0, 1), (0, 0, 1), (1, 0, 2), (2, 0, 2)]);
}

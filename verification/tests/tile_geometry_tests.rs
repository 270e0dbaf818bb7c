use ddnet_client::tile_geometry::{
    add_tile, fill_tmp_tile, fill_tmp_tile_speedup, SGraphicTile, SGraphicTileTexureCoords,
    TILE_FLAG_ROTATE, TILE_FLAG_XFLIP, TILE_FLAG_YFLIP,
};

fn xs(t: &SGraphicTileTexureCoords) -> [u8; 4] {
    [
        t.tex_coord_top_left.x,
        t.tex_coord_top_right.x,
        t.tex_coord_bottom_right.x,
        t.tex_coord_bottom_left.x,
    ]
}

fn ys(t: &SGraphicTileTexureCoords) -> [u8; 4] {
    [
        t.tex_coord_top_left.y,
        t.tex_coord_top_right.y,
        t.tex_coord_bottom_right.y,
        t.tex_coord_bottom_left.y,
    ]
}

#[test]
fn plain_tile_covers_its_grid_square() {
    let (tile, tex) = fill_tmp_tile(0, 7, 2, 3, 32);
    assert_eq!((tile.top_left.x, tile.top_left.y), (64, 96));
    assert_eq!((tile.top_right.x, tile.top_right.y), (96, 96));
    assert_eq!((tile.bottom_right.x, tile.bottom_right.y), (96, 128));
    assert_eq!((tile.bottom_left.x, tile.bottom_left.y), (64, 128));
    assert_eq!(xs(&tex), [0, 1, 1, 0]);
    assert_eq!(ys(&tex), [0, 0, 1, 1]);
    assert_eq!(tex.tex_coord_top_left.z, 7);
}

#[test]
fn flipped_tiles_mirror_texture_coordinates() {
    let (_, tex) = fill_tmp_tile(TILE_FLAG_XFLIP, 1, 0, 0, 32);
    assert_eq!(xs(&tex), [1, 0, 0, 1]);
    assert_eq!(ys(&tex), [0, 0, 1, 1]);
    let (_, tex) = fill_tmp_tile(TILE_FLAG_YFLIP, 1, 0, 0, 32);
    assert_eq!(xs(&tex), [0, 1, 1, 0]);
    assert_eq!(ys(&tex), [1, 1, 0, 0]);
}

#[test]
fn rotated_tile_turns_texture_coordinates() {
    let (_, tex) = fill_tmp_tile(TILE_FLAG_ROTATE, 1, 0, 0, 32);
    assert_eq!(xs(&tex), [0, 0, 1, 1]);
    assert_eq!(ys(&tex), [1, 0, 0, 1]);
}

#[test]
fn speedup_tile_is_shrunk() {
    let (tile, tex) = fill_tmp_tile_speedup(9, 1, 1, 32);
    assert_eq!((tile.top_left.x, tile.top_left.y), (34, 34));
    assert_eq!((tile.bottom_right.x, tile.bottom_right.y), (62, 62));
    assert_eq!(xs(&tex), [0, 1, 1, 0]);
    assert_eq!(tex.tex_coord_top_left.z, 9);
}

#[test]
fn add_tile_skips_empty_tiles() {
    let mut tiles: Vec<SGraphicTile> = Vec::new();
    let mut tex: Vec<SGraphicTileTexureCoords> = Vec::new();
    assert!(!add_tile(&mut tiles, &mut tex, 0, 0, 1, 1, true, false));
    assert!(tiles.is_empty() && tex.is_empty());
    assert!(add_tile(&mut tiles, &mut tex, 3, 0, 1, 1, true, false));
    assert_eq!(tiles.len(), 1);
    assert_eq!(tex.len(), 1);
    assert_eq!(tiles[0].top_left.x, 32);
    assert!(add_tile(&mut tiles, &mut tex, 3, 0, 2, 0, false, true));
    assert_eq!(tiles.len(), 2);
    assert_eq!(tex.len(), 1);
    assert_eq!(tiles[1].top_left.x, 66);
}

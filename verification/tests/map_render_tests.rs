use ddnet_client::map_render::{
    kill_tile_border_draws, layers_of_group_count, render_tile_border_corner_tiles,
    tile_layer_and_overlay_count, tile_layer_draw_ranges, visible_tile_range, BorderDraw,
    GroupLayer, LayerRenderConfig, LayerStep, MapLayerType, RenderMap, RenderMapTypes,
};
use ddnet_client::tile_layer::TileLayerKind;
use ddnet_client::tile_visual::STileVisual;

fn kind() -> TileLayerKind {
    TileLayerKind {
        is_game: false,
        is_front: false,
        is_switch: false,
        is_tele: false,
        is_speedup: false,
        is_tune: false,
    }
}

fn layer(layer_type: MapLayerType, kind: TileLayerKind) -> GroupLayer {
    GroupLayer { layer_type, kind, is_detail: false, image: -1 }
}

fn config() -> LayerRenderConfig {
    LayerRenderConfig {
        gfx_no_clip: false,
        gfx_high_detail: true,
        cl_background_show_tile_layers: false,
        cl_overlay_entities: 0,
    }
}

#[test]
fn visible_range_is_clamped_to_the_layer() {
    let r = visible_tile_range(-3, 2, 5, 20, 10, 10);
    assert_eq!((r.x0, r.y0, r.x1, r.y1), (0, 2, 5, 9));
    assert!(r.draw_border);
    assert!(r.draw_layer);
    let r = visible_tile_range(2, 2, 5, 5, 10, 10);
    assert!(!r.draw_border);
    let r = visible_tile_range(12, 2, 15, 5, 10, 10);
    assert!(!r.draw_layer);
}

#[test]
fn draw_ranges_count_indices_per_row() {
    // a 3 x 2 layer, every tile drawn, quads in order
    let mut vis: Vec<STileVisual> = Vec::new();
    for i in 0..6u32 {
        let mut v = STileVisual::empty();
        v.set_index_buffer_offset(i * 24);
        v.draw(i != 4);
        vis.push(v);
    }
    let range = visible_tile_range(0, 0, 1, 1, 3, 2);
    let (offsets, counts) = tile_layer_draw_ranges(&vis, 3, 2, range);
    assert_eq!(offsets, vec![0, 72]);
    // row 0: tiles 0..=1 -> 12 indices; row 1: tiles 3..=4, tile 4 not drawn -> 6
    assert_eq!(counts, vec![12, 6]);
}

#[test]
fn render_counts_overlays() {
    let mut k = kind();
    assert_eq!(tile_layer_and_overlay_count(&k), 1);
    k.is_switch = true;
    assert_eq!(tile_layer_and_overlay_count(&k), 3);
    k = kind();
    k.is_tele = true;
    assert_eq!(tile_layer_and_overlay_count(&k), 2);
}

#[test]
fn group_count_sums_visuals() {
    let mut tele = kind();
    tele.is_tele = true;
    let mut game = kind();
    game.is_game = true;
    let layers = vec![
        layer(MapLayerType::Tiles, kind()),
        layer(MapLayerType::Quads, kind()),
        layer(MapLayerType::Tiles, tele),
        layer(MapLayerType::Tiles, game),
        layer(MapLayerType::Other, kind()),
    ];
    let mut tiles = 5usize;
    let mut quads = 1usize;
    let mut passed = false;
    layers_of_group_count(&layers, &mut tiles, &mut quads, &mut passed);
    assert_eq!(tiles, 5 + 1 + 2 + 1);
    assert_eq!(quads, 2);
    assert!(passed);
}

#[test]
fn full_design_draws_design_layers_only() {
    let map = RenderMap::new();
    assert!(map.map_type == RenderMapTypes::FullDesign);
    let mut passed = false;
    let step = map.layer_step(&layer(MapLayerType::Tiles, kind()), &mut passed, &config());
    assert!(step == LayerStep::Next { tile_visuals: 1, quad_visuals: 0, draw: true });
    let mut game = kind();
    game.is_game = true;
    let step = map.layer_step(&layer(MapLayerType::Tiles, game), &mut passed, &config());
    assert!(step == LayerStep::Next { tile_visuals: 1, quad_visuals: 0, draw: false });
    assert!(passed);
}

#[test]
fn background_stops_at_the_game_layer() {
    let map = RenderMap { map_type: RenderMapTypes::Background };
    let mut passed = false;
    let step = map.layer_step(&layer(MapLayerType::Quads, kind()), &mut passed, &config());
    assert!(step == LayerStep::Next { tile_visuals: 0, quad_visuals: 1, draw: true });
    let mut game = kind();
    game.is_game = true;
    let step = map.layer_step(&layer(MapLayerType::Tiles, game), &mut passed, &config());
    assert!(step == LayerStep::Stop);
}

#[test]
fn clipping_needs_a_clipping_group() {
    let map = RenderMap { map_type: RenderMapTypes::All };
    assert!(map.uses_clipping(false, 2, 1));
    assert!(!map.uses_clipping(true, 2, 1));
    assert!(!map.uses_clipping(false, 1, 1));
    assert!(!map.uses_clipping(false, 2, 0));
    assert!(RenderMap::new().uses_clipping(true, 2, 1));
}

#[test]
fn corner_tiles_leave_out_the_visible_corner() {
    let d = render_tile_border_corner_tiles(3, 4, 10, 10, 48, -3, -4, 1, 1);
    assert!(
        d == BorderDraw::Tiles {
            byte_offset: 48,
            offset_x: -3,
            offset_y: -4,
            dir_x: 1,
            dir_y: 1,
            count_x: 3,
            count: 11,
        }
    );
    let d = render_tile_border_corner_tiles(30, 4, 10, 10, 0, 0, 0, 1, 1);
    match d {
        BorderDraw::Tiles { count_x, count, .. } => {
            assert_eq!(count_x, 10);
            assert_eq!(count, 40);
        }
        _ => panic!("corner tiles expected"),
    }
}

#[test]
fn kill_border_far_left() {
    let mut kill = STileVisual::empty();
    kill.set_index_buffer_offset(24);
    kill.draw(true);
    let draws = kill_tile_border_draws(&kill, 50, 40, -250, 0, -210, 10);
    assert_eq!(draws.len(), 1);
    assert!(
        draws[0]
            == BorderDraw::Tiles {
                byte_offset: 24,
                offset_x: -250,
                offset_y: 0,
                dir_x: 1,
                dir_y: 1,
                count_x: 49,
                count: 490,
            }
    );
}

#[test]
fn kill_border_is_cut_at_three_hundred_tiles() {
    let mut kill = STileVisual::empty();
    kill.draw(true);
    let draws = kill_tile_border_draws(&kill, 10, 10, -1000, -1000, 1000, 1000);
    assert_eq!(draws.len(), 4);
    match draws[0] {
        BorderDraw::Tiles { offset_x, count_x, count, .. } => {
            assert_eq!(offset_x, -300);
            assert_eq!(count_x, 99);
            assert_eq!(count, 99 * 609);
        }
        _ => panic!("tiles expected"),
    }
    match draws[1] {
        BorderDraw::Tiles { offset_x, offset_y, count_x, count, .. } => {
            assert_eq!((offset_x, offset_y), (-201, -300));
            assert_eq!(count_x, 412);
            assert_eq!(count, 412 * 99);
        }
        _ => panic!("tiles expected"),
    }
}

#[test]
fn no_kill_border_near_the_map() {
    let mut kill = STileVisual::empty();
    kill.draw(true);
    assert!(kill_tile_border_draws(&kill, 10, 10, -5, -5, 20, 20).is_empty());
    let hidden = STileVisual::empty();
    assert!(kill_tile_border_draws(&hidden, 10, 10, -500, -5, 20, 20).is_empty());
}

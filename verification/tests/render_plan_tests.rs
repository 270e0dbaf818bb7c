use ddnet_client::map_render::{
    render_tile_border_corner_tiles, BorderDraw, GroupLayer, LayerRenderConfig, MapLayerType,
    RenderMap, RenderMapTypes,
};
use ddnet_client::render_plan::LayerDraw;
use ddnet_client::tile_layer::TileLayerKind;
use ddnet_client::upload_plan::{upload_jobs, MapGroupLayers};

fn kind() -> TileLayerKind {
    TileLayerKind {
        is_game: false,
        is_front: false,
        is_switch: false,
        is_tele: false,
        is_speedup: false,
        is_tune: false,
    }
}

fn tiles(kind: TileLayerKind) -> GroupLayer {
    GroupLayer { layer_type: MapLayerType::Tiles, kind, is_detail: false, image: 0 }
}

fn quads() -> GroupLayer {
    GroupLayer { layer_type: MapLayerType::Quads, kind: kind(), is_detail: false, image: 0 }
}

fn config() -> LayerRenderConfig {
    LayerRenderConfig {
        gfx_no_clip: false,
        gfx_high_detail: true,
        cl_background_show_tile_layers: true,
        cl_overlay_entities: 0,
    }
}

fn map() -> Vec<MapGroupLayers> {
    let switch = TileLayerKind { is_switch: true, ..kind() };
    let game = TileLayerKind { is_game: true, ..kind() };
    vec![
        MapGroupLayers { start_layer: 0, layers: vec![tiles(kind()), quads()] },
        MapGroupLayers { start_layer: 2, layers: vec![tiles(switch), quads()] },
        MapGroupLayers { start_layer: 4, layers: vec![tiles(game), tiles(kind()), quads()] },
    ]
}

#[test]
fn full_design_draws_use_the_uploaded_visuals_across_clipped_groups() {
    let m = RenderMap::new();
    let draws = m.render_draws(&map(), &vec![false, true, false], &config());
    assert_eq!(
        draws,
        vec![
            LayerDraw::Tiles { group: 0, layer_index: 0, visual_index: 0, kill_border: false },
            LayerDraw::Quads { group: 0, layer_index: 1, visual_index: 0 },
            LayerDraw::Tiles { group: 2, layer_index: 5, visual_index: 5, kill_border: false },
            LayerDraw::Quads { group: 2, layer_index: 6, visual_index: 2 },
        ]
    );
    let (tile_jobs, quad_jobs) = upload_jobs(&map(), false);
    assert_eq!(tile_jobs[5].layer_index, 5);
    assert_eq!(quad_jobs[2].layer_index, 6);
}

#[test]
fn full_design_skips_entity_layers_and_draws_clipped_groups_not_at_all() {
    let m = RenderMap::new();
    let draws = m.render_draws(&map(), &vec![true, true, true], &config());
    assert!(draws.is_empty());
    let draws = m.render_draws(&map(), &vec![false, false, false], &config());
    assert_eq!(draws.len(), 5);
    assert_eq!(
        draws[2],
        LayerDraw::Quads { group: 1, layer_index: 3, visual_index: 1 }
    );
}

#[test]
fn all_layers_map_draws_the_game_layer_with_kill_tiles() {
    let m = RenderMap { map_type: RenderMapTypes::All };
    let cfg = LayerRenderConfig { cl_overlay_entities: 50, ..config() };
    let draws = m.render_draws(&map(), &vec![false, false, false], &cfg);
    assert!(draws.contains(&LayerDraw::Tiles {
        group: 2,
        layer_index: 4,
        visual_index: 4,
        kill_border: true
    }));
}

#[test]
fn background_map_stops_at_the_game_layer() {
    let m = RenderMap { map_type: RenderMapTypes::Background };
    let draws = m.render_draws(&map(), &vec![false, false, false], &config());
    assert_eq!(draws.len(), 3);
    assert_eq!(draws[2], LayerDraw::Quads { group: 1, layer_index: 3, visual_index: 1 });
}

#[test]
fn corner_of_a_large_canvas_counts_only_the_offsets() {
    let d = render_tile_border_corner_tiles(1, 1, 50000, 50000, 0, 0, 0, 1, 1);
    match d {
        BorderDraw::Tiles { count_x, count, .. } => {
            assert_eq!(count_x, 1);
            assert_eq!(count, 0);
        }
        _ => panic!("expected tiles"),
    }
    let d = render_tile_border_corner_tiles(3, 2, 50000, 50000, 0, 0, 0, 1, 1);
    match d {
        BorderDraw::Tiles { count_x, count, .. } => {
            assert_eq!(count_x, 3);
            assert_eq!(count, 5);
        }
        _ => panic!("expected tiles"),
    }
}

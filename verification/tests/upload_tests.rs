use ddnet_client::quad_layer::{QuadLayerUpload, QuadVertex};
use ddnet_client::tile_layer::{prepare_tile_layer, MapTile, MapTileLayerDetail};
use ddnet_client::upload_bytes::{copy_fits, quad_upload_byte_len, tile_upload_buffer};
use ddnet_client::map_render::{GroupLayer, MapLayerType};
use ddnet_client::tile_layer::TileLayerKind;
use ddnet_client::upload_bytes::{
    mem_copy_special, quad_vertex_layout, tile_vertex_layout, AttributeType, VertexAttribute,
};
use ddnet_client::upload_plan::{
    image_usage, tile_image_needs_resize, upload_jobs, MapGroupLayers, QuadJob, TileJob,
};

fn kind() -> TileLayerKind {
    TileLayerKind {
        is_game: false,
        is_front: false,
        is_switch: false,
        is_tele: false,
        is_speedup: false,
        is_tune: false,
    }
}

fn layer(layer_type: MapLayerType, kind: TileLayerKind, image: i32) -> GroupLayer {
    GroupLayer { layer_type, kind, is_detail: false, image }
}

fn map() -> Vec<MapGroupLayers> {
    let mut switch = kind();
    switch.is_switch = true;
    let mut game = kind();
    game.is_game = true;
    vec![
        MapGroupLayers {
            start_layer: 0,
            layers: vec![layer(MapLayerType::Quads, kind(), 1), layer(MapLayerType::Tiles, kind(), 0)],
        },
        MapGroupLayers {
            start_layer: 2,
            layers: vec![
                layer(MapLayerType::Tiles, game, -1),
                layer(MapLayerType::Tiles, switch, 7),
                layer(MapLayerType::Quads, kind(), 0),
            ],
        },
    ]
}

#[test]
fn upload_plan_numbers_visuals_in_layer_order() {
    let (tiles, quads) = upload_jobs(&map(), false);
    let t = |visual_index: usize, group: usize, layer_index: usize, overlay: u32| TileJob {
        visual_index,
        group,
        layer_index,
        overlay,
    };
    assert!(
        tiles
            == vec![t(0, 0, 1, 0), t(1, 1, 2, 0), t(2, 1, 3, 0), t(3, 1, 3, 1), t(4, 1, 3, 2)]
    );
    assert!(
        quads
            == vec![
                QuadJob { visual_index: 0, group: 0, layer_index: 0 },
                QuadJob { visual_index: 1, group: 1, layer_index: 4 },
            ]
    );
}

#[test]
fn background_upload_with_a_game_layer_prepares_nothing() {
    let (tiles, quads) = upload_jobs(&map(), true);
    assert!(tiles.is_empty());
    assert!(quads.is_empty());
    let mut only_design = map();
    only_design.truncate(1);
    let (tiles, quads) = upload_jobs(&only_design, true);
    assert_eq!(tiles.len(), 1);
    assert_eq!(quads.len(), 1);
}

#[test]
fn image_usage_marks_tile_and_quad_images() {
    let flags = image_usage(&map(), 3);
    assert_eq!(flags, vec![(true, true), (false, true), (false, false)]);
}

#[test]
fn records_are_interleaved_with_gaps() {
    // two elements of four 2-byte records each, copied into 3-byte chunks
    let src = vec![vec![1, 2, 3, 4, 5, 6, 7, 8], vec![9, 10, 11, 12, 13, 14, 15, 16]];
    let mut dest = vec![0xAAu8; 24];
    mem_copy_special(&mut dest, &src, 2, 8, 1);
    assert_eq!(
        dest,
        vec![
            1, 2, 0xAA, 3, 4, 0xAA, 5, 6, 0xAA, 7, 8, 0xAA, 9, 10, 0xAA, 11, 12, 0xAA, 13, 14,
            0xAA, 15, 16, 0xAA
        ]
    );
}

#[test]
fn last_chunk_may_be_short() {
    let src = vec![vec![1, 2, 3, 4, 5, 6, 7, 8]];
    let mut dest = vec![0u8; 8];
    mem_copy_special(&mut dest, &src, 2, 3, 1);
    assert_eq!(dest, vec![1, 2, 0, 3, 4, 0, 5, 6]);
}

fn attr(count: u32, graphics_type: AttributeType, normalized: bool, offset: usize) -> VertexAttribute {
    VertexAttribute { data_type_count: count, graphics_type, normalized, offset }
}

#[test]
fn textured_tile_vertices_hold_position_and_texture_coordinate() {
    let l = tile_vertex_layout(true);
    assert_eq!(l.stride, 20);
    assert_eq!(
        l.attributes,
        vec![attr(2, AttributeType::Float, false, 0), attr(3, AttributeType::Float, false, 8)]
    );
}

#[test]
fn untextured_tile_vertices_are_tightly_packed_positions() {
    let l = tile_vertex_layout(false);
    assert_eq!(l.stride, 0);
    assert_eq!(l.attributes, vec![attr(2, AttributeType::Float, false, 0)]);
}

#[test]
fn quad_vertices_hold_position_color_and_texture_coordinate() {
    let l = quad_vertex_layout(true);
    assert_eq!(l.stride, 28);
    assert_eq!(
        l.attributes,
        vec![
            attr(4, AttributeType::Float, false, 0),
            attr(4, AttributeType::UnsignedByte, true, 16),
            attr(2, AttributeType::Float, false, 20),
        ]
    );
    let u = quad_vertex_layout(false);
    assert_eq!(u.stride, 20);
    assert_eq!(u.attributes.len(), 2);
    assert_eq!(u.attributes[1], attr(4, AttributeType::UnsignedByte, true, 16));
}

#[test]
fn upload_buffers_have_the_bytes_of_their_vertices() {
    let tiles = vec![MapTile { index: 5, flags: 0, skip: 0 }];
    let textured = prepare_tile_layer(1, 1, 0, kind(), &tiles, &MapTileLayerDetail::Tile, 0).unwrap();
    assert_eq!(textured.tiles.len(), 2);
    let buf = tile_upload_buffer(&textured);
    assert_eq!(buf.len(), 2 * 80);
    assert!(buf.iter().all(|b| *b == 0));
    let plain = prepare_tile_layer(1, 1, -1, kind(), &tiles, &MapTileLayerDetail::Tile, 0).unwrap();
    assert_eq!(tile_upload_buffer(&plain).len(), 2 * 32);
    let v = QuadVertex { x: 0, y: 0, center_x: 0, center_y: 0, r: 0, g: 0, b: 0, a: 0, u: 0, v: 0 };
    let up = QuadLayerUpload { vertices: vec![v; 8], textured: true, index_count: 12 };
    assert_eq!(quad_upload_byte_len(&up), 2 * 112);
    let up = QuadLayerUpload { vertices: vec![v; 8], textured: false, index_count: 12 };
    assert_eq!(quad_upload_byte_len(&up), 2 * 80);
}

#[test]
fn tile_images_are_resized_unless_sides_are_multiples_of_16() {
    assert!(!tile_image_needs_resize(1024, 1024));
    assert!(!tile_image_needs_resize(16, 32));
    assert!(tile_image_needs_resize(0, 16));
    assert!(tile_image_needs_resize(100, 64));
    assert!(tile_image_needs_resize(64, 8));
}

#[test]
fn copies_that_would_leave_the_buffer_are_told_apart() {
    let recs = vec![vec![1u8; 8], vec![2u8; 8]];
    // two elements of four 2-byte records, chunks of 2 + 3 bytes
    assert!(copy_fits(40, &recs, 2, 3));
    assert!(copy_fits(37, &recs, 2, 3));
    assert!(!copy_fits(36, &recs, 2, 3));
    assert!(!copy_fits(45, &recs, 2, 3));
    assert!(!copy_fits(40, &recs, 0, 0));
    assert!(!copy_fits(40, &vec![vec![1u8; 8], vec![2u8; 7]], 2, 3));
}

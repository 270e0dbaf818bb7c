use ddnet_client::tile_visual::{SQuadLayerVisualsBase, STileLayerVisualsBase, STileVisual};

#[test]
fn empty_visual_has_no_offset_and_is_not_drawn() {
    let v = STileVisual::empty();
    assert_eq!(v.index_buffer_byte_offset(), 0);
    assert!(!v.do_draw());
    let d: STileVisual = Default::default();
    assert_eq!(d.index_buffer_byte_offset(), 0);
    assert!(!d.do_draw());
}

#[test]
fn draw_flag_and_offset_are_independent() {
    let mut v = STileVisual::empty();
    v.set_index_buffer_offset(48);
    v.draw(true);
    assert!(v.do_draw());
    assert_eq!(v.index_buffer_byte_offset(), 48);
    v.draw(false);
    assert!(!v.do_draw());
    assert_eq!(v.index_buffer_byte_offset(), 48);
    v.draw(true);
    v.set_index_buffer_offset(96);
    assert!(v.do_draw());
    assert_eq!(v.index_buffer_byte_offset(), 96);
}

#[test]
fn add_offset_keeps_draw_flag() {
    let mut v = STileVisual::empty();
    v.draw(true);
    v.set_index_buffer_offset(24);
    v.add_index_buffer_byte_offset(24);
    assert_eq!(v.index_buffer_byte_offset(), 48);
    assert!(v.do_draw());
}

#[test]
fn odd_offset_sets_draw_bit() {
    let mut v = STileVisual::empty();
    v.set_index_buffer_offset(7);
    assert_eq!(v.index_buffer_byte_offset(), 6);
    assert!(v.do_draw());
}

#[test]
fn layer_visuals_start_empty() {
    let v = STileLayerVisualsBase::new();
    assert_eq!(v.tiles_of_layer.len(), 0);
    assert_eq!(v.border_top.len(), 0);
    assert_eq!(v.width, 0);
    assert_eq!(v.height, 0);
    assert!(!v.is_textured);
    let q = SQuadLayerVisualsBase::new();
    assert_eq!(q.quad_num, 0);
    assert_eq!(q.quads_of_layer.len(), 0);
}

#[test]
fn init_sizes_the_visual_lists() {
    let mut v = STileLayerVisualsBase::new();
    assert!(v.init(4, 3));
    assert_eq!(v.width, 4);
    assert_eq!(v.height, 3);
    assert_eq!(v.tiles_of_layer.len(), 12);
    assert_eq!(v.border_top.len(), 2);
    assert_eq!(v.border_bottom.len(), 2);
    assert_eq!(v.border_left.len(), 1);
    assert_eq!(v.border_right.len(), 1);
    assert!(v.tiles_of_layer.iter().all(|t| !t.do_draw() && t.index_buffer_byte_offset() == 0));
}

#[test]
fn init_refuses_empty_layers() {
    let mut v = STileLayerVisualsBase::new();
    assert!(!v.init(0, 3));
    assert!(!v.init(3, 0));
    assert_eq!(v.tiles_of_layer.len(), 0);
    assert!(!v.init(0x10000, 0x10000));
}

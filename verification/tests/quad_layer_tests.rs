use ddnet_client::quad_layer::{
    prepare_quad_layer, quad_layer_vertex, quad_render_batches, MapQuad, QuadBatch, QuadColor,
    QuadPoint,
};

fn quad(base: i32) -> MapQuad {
    let p = |x: i32, y: i32| QuadPoint { x, y };
    let c = |v: i32| QuadColor { r: v, g: v + 1, b: v + 2, a: v + 3 };
    MapQuad {
        points: [p(base, 0), p(base + 1, 0), p(base, 1), p(base + 1, 1), p(base + 5, 5)],
        colors: [c(10), c(20), c(30), c(40)],
        tex_coords: [p(0, 0), p(1024, 0), p(0, 1024), p(1024, 1024)],
    }
}

#[test]
fn vertices_swap_the_last_two_corners() {
    let q = quad(100);
    let v2 = quad_layer_vertex(&q, 2, true);
    assert_eq!((v2.x, v2.y), (101, 1));
    assert_eq!((v2.center_x, v2.center_y), (105, 5));
    assert_eq!((v2.r, v2.g, v2.b, v2.a), (40, 41, 42, 43));
    assert_eq!((v2.u, v2.v), (1024, 1024));
    let v3 = quad_layer_vertex(&q, 3, false);
    assert_eq!((v3.x, v3.y), (100, 1));
    assert_eq!((v3.u, v3.v), (0, 0));
}

#[test]
fn colors_are_cut_to_bytes() {
    let mut q = quad(0);
    q.colors[0] = QuadColor { r: 256 + 7, g: -1, b: 255, a: 0 };
    let v = quad_layer_vertex(&q, 0, false);
    assert_eq!((v.r, v.g, v.b, v.a), (7, 255, 255, 0));
}

#[test]
fn quad_layer_upload_has_four_vertices_per_quad() {
    let quads = vec![quad(0), quad(10)];
    let up = prepare_quad_layer(&quads, 3).unwrap();
    assert!(up.textured);
    assert_eq!(up.vertices.len(), 8);
    assert_eq!(up.index_count, 12);
    assert_eq!(up.vertices[4].x, 10);
    assert!(up.vertices[6] == quad_layer_vertex(&quads[1], 2, true));
    let up = prepare_quad_layer(&quads, -1).unwrap();
    assert!(!up.textured);
    assert!(prepare_quad_layer(&Vec::new(), 0).is_none());
}

fn batch(offset: usize, count: usize) -> QuadBatch {
    QuadBatch { offset, count }
}

#[test]
fn batches_skip_transparent_quads() {
    let t = vec![false, false, true, false];
    let b = quad_render_batches(&t, 64);
    assert!(b == vec![batch(0, 2), batch(3, 1)]);
}

#[test]
fn batches_are_cut_at_the_maximum() {
    let t = vec![false; 5];
    let b = quad_render_batches(&t, 2);
    assert!(b == vec![batch(0, 2), batch(2, 2), batch(4, 1)]);
}

#[test]
fn trailing_transparent_quads_leave_an_empty_batch() {
    let t = vec![true, true];
    let b = quad_render_batches(&t, 64);
    assert!(b == vec![batch(0, 0), batch(1, 0), batch(2, 0)]);
    assert!(quad_render_batches(&Vec::new(), 64) == vec![batch(0, 0)]);
}

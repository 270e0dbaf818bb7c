//! Quad layers: the vertex data uploaded for a layer of quads, and the
//! batches in which the renderer draws them.
use vstd::prelude::*;

verus! {

/// A point of a map quad, in the map's fixed-point units.
#[derive(Copy, Clone, PartialEq, Eq, Structural)]
pub struct QuadPoint {
    pub x: i32,
    pub y: i32,
}

/// A corner color of a map quad.
#[derive(Copy, Clone, PartialEq, Eq, Structural)]
pub struct QuadColor {
    pub r: i32,
    pub g: i32,
    pub b: i32,
    pub a: i32,
}

/// A quad of a quad layer: four corners and the center it rotates about,
/// a color and a texture coordinate per corner.
#[derive(Copy, Clone)]
pub struct MapQuad {
    pub points: [QuadPoint; 5],
    pub colors: [QuadColor; 4],
    pub tex_coords: [QuadPoint; 4],
}

/// A vertex as uploaded: position and center in fixed point, the color as
/// bytes, and (for a textured layer) the fixed-point texture coordinate,
/// zero otherwise.
#[derive(Copy, Clone, PartialEq, Eq, Structural)]
pub struct QuadVertex {
    pub x: i32,
    pub y: i32,
    pub center_x: i32,
    pub center_y: i32,
    pub r: u8,
    pub g: u8,
    pub b: u8,
    pub a: u8,
    pub u: i32,
    pub v: i32,
}

/// The corner of the map quad that vertex `j` takes: the map stores the
/// corners in reading order, the upload in winding order.
pub open spec fn vertex_corner(j: int) -> int {
    if j == 2 {
        3
    } else if j == 3 {
        2
    } else {
        j
    }
}

/// Vertex `j` of the uploaded quad.
pub open spec fn quad_vertex(q: MapQuad, j: int, textured: bool) -> QuadVertex {
    let k = vertex_corner(j);
    QuadVertex {
        x: q.points@[k].x,
        y: q.points@[k].y,
        center_x: q.points@[4].x,
        center_y: q.points@[4].y,
        r: q.colors@[k].r as u8,
        g: q.colors@[k].g as u8,
        b: q.colors@[k].b as u8,
        a: q.colors@[k].a as u8,
        u: if textured {
            q.tex_coords@[k].x
        } else {
            0
        },
        v: if textured {
            q.tex_coords@[k].y
        } else {
            0
        },
    }
}

/// The vertex data of a quad layer: four vertices per quad, in the order of
/// the quads.
pub open spec fn quad_vertices(quads: Seq<MapQuad>, textured: bool) -> Seq<QuadVertex> {
    Seq::new(4 * quads.len(), |n: int| quad_vertex(quads[n / 4], n % 4, textured))
}

/// What a quad layer uploads.
pub struct QuadLayerUpload {
    pub vertices: Vec<QuadVertex>,
    pub textured: bool,
    /// Six indices (two triangles) per quad.
    pub index_count: usize,
}

pub fn quad_layer_vertex(q: &MapQuad, j: usize, textured: bool) -> (r: QuadVertex)
    requires
        j < 4,
    ensures
        r == quad_vertex(*q, j as int, textured),
{
    let k: usize = if j == 2 {
        3
    } else if j == 3 {
        2
    } else {
        j
    };
    let p = q.points[k];
    let c = q.colors[k];
    let center = q.points[4];
    let (u, v) = if textured {
        (q.tex_coords[k].x, q.tex_coords[k].y)
    } else {
        (0i32, 0i32)
    };
    QuadVertex {
        x: p.x,
        y: p.y,
        center_x: center.x,
        center_y: center.y,
        r: c.r as u8,
        g: c.g as u8,
        b: c.b as u8,
        a: c.a as u8,
        u,
        v,
    }
}

/// Prepares the upload of a quad layer; a layer is textured when it names an
/// image (`image != -1`). A layer without quads uploads nothing.
pub fn prepare_quad_layer(quads: &Vec<MapQuad>, image: i32) -> (r: Option<QuadLayerUpload>)
    requires
        quads@.len() * 6 <= i32::MAX,
    ensures
        quads@.len() == 0 <==> r is None,
        r matches Some(u) ==> {
            &&& u.textured == (image != -1)
            &&& u.vertices@ == quad_vertices(quads@, image != -1)
            &&& u.index_count == quads@.len() * 6
        },
{
    let textured = image != -1;
    if quads.len() == 0 {
        return None;
    }
    let mut vertices: Vec<QuadVertex> = Vec::new();
    let mut i: usize = 0;
    while i < quads.len()
        invariant
            i <= quads@.len(),
            quads@.len() * 6 <= i32::MAX,
            vertices@.len() == 4 * i,
            forall|n: int|
                0 <= n < 4 * i ==> #[trigger] vertices@[n] == quad_vertex(
                    quads@[n / 4],
                    n % 4,
                    textured,
                ),
        decreases quads@.len() - i,
    {
        let mut j: usize = 0;
        while j < 4
            invariant
                i < quads@.len(),
                j <= 4,
                vertices@.len() == 4 * i + j,
                forall|n: int|
                    0 <= n < 4 * i + j ==> #[trigger] vertices@[n] == quad_vertex(
                        quads@[n / 4],
                        n % 4,
                        textured,
                    ),
            decreases 4 - j,
        {
            let vtx = quad_layer_vertex(&quads[i], j, textured);
            proof {
                let n = 4 * i + j;
                assert(n / 4 == i && n % 4 == j) by (nonlinear_arith)
                    requires
                        n == 4 * i + j,
                        0 <= j < 4,
                ;
            }
            vertices.push(vtx);
            j = j + 1;
        }
        i = i + 1;
    }
    proof {
        assert(vertices@ =~= quad_vertices(quads@, textured));
    }
    Some(QuadLayerUpload { vertices, textured, index_count: quads.len() * 6 })
}

/// A draw call of quads `offset .. offset + count` of a layer.
#[derive(Copy, Clone, PartialEq, Eq, Structural)]
pub struct QuadBatch {
    pub offset: usize,
    pub count: usize,
}

/// The state of the batching after a prefix of the quads: the batches sent
/// so far, the number of quads gathered and the offset of the first of
/// them.
pub open spec fn batch_state(transparent: Seq<bool>, max: nat) -> (Seq<QuadBatch>, nat, nat)
    decreases transparent.len(),
{
    if transparent.len() == 0 {
        (Seq::empty(), 0, 0)
    } else {
        let prev = batch_state(transparent.drop_last(), max);
        let i = (transparent.len() - 1) as nat;
        let skip = transparent.last();
        let flush = prev.1 == max || skip;
        let after = if flush {
            (
                prev.0.push(QuadBatch { offset: prev.2 as usize, count: prev.1 as usize }),
                0nat,
                if skip {
                    i + 1
                } else {
                    i
                },
            )
        } else {
            prev
        };
        if skip {
            after
        } else {
            (after.0, after.1 + 1, after.2)
        }
    }
}

/// The draw calls for a quad layer whose quad `i` is fully transparent when
/// `transparent[i]`: consecutive visible quads go into one call of at most
/// `max` quads; a transparent quad ends the call before it and is left out.
/// A call is sent at every break and once at the end, empty ones included.
pub open spec fn spec_quad_batches(transparent: Seq<bool>, max: nat) -> Seq<QuadBatch> {
    let s = batch_state(transparent, max);
    s.0.push(QuadBatch { offset: s.2 as usize, count: s.1 as usize })
}

/// Quad `j` is drawn by one of the batches.
pub open spec fn in_batch(batches: Seq<QuadBatch>, j: int) -> bool {
    exists|k: int|
        0 <= k < batches.len() && #[trigger] batches[k].offset <= j < batches[k].offset
            + batches[k].count
}

/// The batches lie within the layer, in order and apart.
pub open spec fn batches_ordered(batches: Seq<QuadBatch>, n: int) -> bool {
    &&& forall|k: int|
        0 <= k < batches.len() ==> #[trigger] batches[k].offset + batches[k].count <= n
    &&& forall|k: int, l: int|
        0 <= k < l < batches.len() ==> #[trigger] batches[k].offset + batches[k].count
            <= #[trigger] batches[l].offset
}

proof fn lemma_batch_state(transparent: Seq<bool>, max: nat)
    requires
        transparent.len() <= usize::MAX,
    ensures
        ({
            let s = batch_state(transparent, max);
            let n = transparent.len() as int;
            &&& s.2 + s.1 == n
            &&& batches_ordered(s.0, s.2 as int)
            &&& forall|j: int| s.2 <= j < n ==> !transparent[j]
            &&& forall|j: int| 0 <= j < s.2 ==> (in_batch(s.0, j) <==> !transparent[j])
            &&& max >= 1 ==> s.1 <= max
            &&& max >= 1 ==> forall|k: int| 0 <= k < s.0.len() ==> #[trigger] s.0[k].count <= max
        }),
    decreases transparent.len(),
{
    if transparent.len() > 0 {
        let t0 = transparent.drop_last();
        lemma_batch_state(t0, max);
        let prev = batch_state(t0, max);
        let s = batch_state(transparent, max);
        let n = transparent.len() as int;
        let i = n - 1;
        assert forall|j: int| 0 <= j < i implies transparent[j] == t0[j] by {}
        let skip = transparent.last();
        let flush = prev.1 == max || skip;
        if flush {
            let b = prev.0.push(QuadBatch { offset: prev.2 as usize, count: prev.1 as usize });
            assert(b.len() == prev.0.len() + 1);
            assert forall|j: int| 0 <= j < prev.2 implies (in_batch(b, j) <==> !transparent[j]) by {
                if in_batch(prev.0, j) {
                    let k = choose|k: int|
                        0 <= k < prev.0.len() && #[trigger] prev.0[k].offset <= j < prev.0[k].offset
                            + prev.0[k].count;
                    assert(b[k] == prev.0[k]);
                }
                if in_batch(b, j) {
                    let k = choose|k: int|
                        0 <= k < b.len() && #[trigger] b[k].offset <= j < b[k].offset + b[k].count;
                    if k < prev.0.len() {
                        assert(b[k] == prev.0[k]);
                    }
                }
            }
            assert forall|j: int| prev.2 <= j < i implies (in_batch(b, j) <==> !transparent[j]) by {
                let k = prev.0.len() as int;
                assert(b[k].offset <= j < b[k].offset + b[k].count);
            }
            assert forall|k: int, l: int|
                0 <= k < l < b.len() implies #[trigger] b[k].offset + b[k].count
                <= #[trigger] b[l].offset by {
                if l < prev.0.len() {
                    assert(b[k] == prev.0[k] && b[l] == prev.0[l]);
                } else {
                    assert(b[k] == prev.0[k]);
                }
            }
            assert forall|k: int| 0 <= k < b.len() implies #[trigger] b[k].offset + b[k].count
                <= s.2 by {
                if k < prev.0.len() {
                    assert(b[k] == prev.0[k]);
                }
            }
            if skip {
                assert(!in_batch(b, i)) by {
                    if in_batch(b, i) {
                        let k = choose|k: int|
                            0 <= k < b.len() && #[trigger] b[k].offset <= i < b[k].offset
                                + b[k].count;
                        if k < prev.0.len() {
                            assert(b[k] == prev.0[k]);
                        }
                    }
                }
            }
            if max >= 1 {
                assert forall|k: int| 0 <= k < b.len() implies #[trigger] b[k].count <= max by {
                    if k < prev.0.len() {
                        assert(b[k] == prev.0[k]);
                    }
                }
            }
        }
    }
}

/// Every visible quad is drawn by exactly the batches that cover it, no
/// transparent quad is drawn, the batches are in order and apart, and none
/// holds more than `max` quads.
pub proof fn law_quad_batches_draw_visible_quads(transparent: Seq<bool>, max: nat)
    requires
        transparent.len() <= usize::MAX,
    ensures
        ({
            let bs = spec_quad_batches(transparent, max);
            &&& forall|j: int|
                0 <= j < transparent.len() ==> (in_batch(bs, j) <==> !transparent[j])
            &&& batches_ordered(bs, transparent.len() as int)
            &&& max >= 1 ==> forall|k: int| 0 <= k < bs.len() ==> #[trigger] bs[k].count <= max
        }),
{
    lemma_batch_state(transparent, max);
    let s = batch_state(transparent, max);
    let bs = spec_quad_batches(transparent, max);
    let n = transparent.len() as int;
    let last = s.0.len() as int;
    assert(bs[last] == QuadBatch { offset: s.2 as usize, count: s.1 as usize });
    assert forall|j: int| 0 <= j < n implies (in_batch(bs, j) <==> !transparent[j]) by {
        if j < s.2 {
            if in_batch(s.0, j) {
                let k = choose|k: int|
                    0 <= k < s.0.len() && #[trigger] s.0[k].offset <= j < s.0[k].offset
                        + s.0[k].count;
                assert(bs[k] == s.0[k]);
            }
            if in_batch(bs, j) {
                let k = choose|k: int|
                    0 <= k < bs.len() && #[trigger] bs[k].offset <= j < bs[k].offset + bs[k].count;
                if k < s.0.len() {
                    assert(bs[k] == s.0[k]);
                }
            }
        } else {
            assert(bs[last].offset <= j < bs[last].offset + bs[last].count);
        }
    }
    assert forall|k: int, l: int|
        0 <= k < l < bs.len() implies #[trigger] bs[k].offset + bs[k].count
        <= #[trigger] bs[l].offset by {
        assert(bs[k] == s.0[k]);
        if l < s.0.len() {
            assert(bs[l] == s.0[l]);
        }
    }
    assert forall|k: int| 0 <= k < bs.len() implies #[trigger] bs[k].offset + bs[k].count <= n by {
        if k < s.0.len() {
            assert(bs[k] == s.0[k]);
        }
    }
    if max >= 1 {
        assert forall|k: int| 0 <= k < bs.len() implies #[trigger] bs[k].count <= max by {
            if k < s.0.len() {
                assert(bs[k] == s.0[k]);
            }
        }
    }
}

/// The draw calls of a quad layer (see `spec_quad_batches`); `max_batch`
/// is the most quads one call can take.
pub fn quad_render_batches(transparent: &Vec<bool>, max_batch: usize) -> (r: Vec<QuadBatch>)
    ensures
        r@ == spec_quad_batches(transparent@, max_batch as nat),
{
    let mut batches: Vec<QuadBatch> = Vec::new();
    let mut count: usize = 0;
    let mut offset: usize = 0;
    let mut i: usize = 0;
    while i < transparent.len()
        invariant
            i <= transparent@.len(),
            batch_state(transparent@.take(i as int), max_batch as nat) == (
                batches@,
                count as nat,
                offset as nat,
            ),
        decreases transparent@.len() - i,
    {
        proof {
            lemma_batch_state(transparent@.take(i as int), max_batch as nat);
            assert(transparent@.take(i + 1).drop_last() =~= transparent@.take(i as int));
        }
        let skip = transparent[i];
        if count == max_batch || skip {
            batches.push(QuadBatch { offset, count });
            count = 0;
            offset = if skip {
                i + 1
            } else {
                i
            };
        }
        if !skip {
            count = count + 1;
        }
        i = i + 1;
    }
    proof {
        assert(transparent@.take(i as int) =~= transparent@);
    }
    batches.push(QuadBatch { offset, count });
    batches
}

} // verus!

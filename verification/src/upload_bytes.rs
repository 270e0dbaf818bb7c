//! Interleaving of per-vertex byte records into an upload buffer.
use crate::quad_layer::QuadLayerUpload;
use crate::tile_layer::TileLayerUpload;
use vstd::prelude::*;
use vstd::arithmetic::div_mod::lemma_fundamental_div_mod_converse;

verus! {

/// The byte at `k` after the interleaved copy: the buffer is cut into
/// chunks of `s + steps` bytes; chunk `i` starts with the `s`-byte record of
/// vertex `i % 4` of element `i / 4` (element `e` holds its four records one
/// after another); the `steps` bytes after it keep their value.
pub open spec fn interleaved_byte(
    before: Seq<u8>,
    src: Seq<Vec<u8>>,
    s: int,
    steps: int,
    k: int,
) -> u8 {
    let c = s + steps;
    let i = k / c;
    let b = k % c;
    if b < s {
        src[i / 4]@[(i % 4) * s + b]
    } else {
        before[k]
    }
}

/// Number of chunks of `c` bytes (the last one possibly shorter) in `len`
/// bytes.
pub open spec fn chunk_count(len: int, c: int) -> int {
    if len % c == 0 {
        len / c
    } else {
        len / c + 1
    }
}

/// The copy stays in bounds: chunks are not empty, every chunk has room for
/// a record, there is an element for every chunk, and every element holds
/// four records.
pub open spec fn interleave_fits(len: int, src: Seq<Vec<u8>>, s: int, steps: int) -> bool {
    let c = s + steps;
    &&& c > 0
    &&& len % c == 0 || len % c >= s
    &&& chunk_count(len, c) <= 4 * src.len()
    &&& forall|e: int| 0 <= e < src.len() ==> #[trigger] src[e]@.len() >= 4 * s
}

proof fn lemma_chunk_pos(k: int, c: int, i: int, b: int)
    requires
        c > 0,
        0 <= b < c,
        k == i * c + b,
    ensures
        k / c == i,
        k % c == b,
{
    lemma_fundamental_div_mod_converse(k, c, i, b);
}

proof fn lemma_chunk_bounds(len: int, c: int, s: int, i: int)
    requires
        c > 0,
        0 <= s <= c,
        0 <= i,
        i * c < len,
        len % c == 0 || len % c >= s,
    ensures
        i * c + s <= len,
        i < chunk_count(len, c),
{
    let q = len / c;
    let r = len % c;
    vstd::arithmetic::div_mod::lemma_fundamental_div_mod(len, c);
    if i < q {
        assert((i + 1) * c <= q * c) by (nonlinear_arith)
            requires
                i + 1 <= q,
                c > 0,
        ;
        assert((i + 1) * c == i * c + c) by (nonlinear_arith);
    } else {
        assert(q * c <= i * c) by (nonlinear_arith)
            requires
                q <= i,
                c > 0,
        ;
        assert(r > 0);
        assert(i == q) by {
            if i > q {
                assert((q + 1) * c <= i * c) by (nonlinear_arith)
                    requires
                        q + 1 <= i,
                        c > 0,
                ;
                assert((q + 1) * c == q * c + c) by (nonlinear_arith);
            }
        }
    }
}

/// Copies the vertex records of `src` into `dest`, one record per chunk of
/// `size_single_element + steps` bytes (see `interleaved_byte`); the bytes
/// between the records are left as they were.
pub fn mem_copy_special(
    dest: &mut [u8],
    src: &Vec<Vec<u8>>,
    size_single_element: usize,
    count: usize,
    steps: usize,
)
    requires
        size_single_element + steps <= usize::MAX,
        interleave_fits(old(dest)@.len() as int, src@, size_single_element as int, steps as int),
    ensures
        final(dest)@.len() == old(dest)@.len(),
        forall|k: int|
            0 <= k < old(dest)@.len() ==> #[trigger] final(dest)@[k] == interleaved_byte(
                old(dest)@,
                src@,
                size_single_element as int,
                steps as int,
                k,
            ),
{
    let s = size_single_element;
    let c = s + steps;
    let len = dest.len();
    let ghost before = dest@;
    let mut i: usize = 0;
    let mut start: usize = 0;
    while start < len
        invariant
            c == s + steps,
            c > 0,
            len == dest@.len(),
            before.len() == len,
            start <= len,
            start < len ==> start == i * c,
            interleave_fits(len as int, src@, s as int, steps as int),
            forall|k: int|
                0 <= k < start && k < len ==> #[trigger] dest@[k] == interleaved_byte(
                    before,
                    src@,
                    s as int,
                    steps as int,
                    k,
                ),
            forall|k: int| start <= k < len ==> #[trigger] dest@[k] == before[k],
        decreases len - start,
    {
        proof {
            lemma_chunk_bounds(len as int, c as int, s as int, i as int);
            vstd::arithmetic::div_mod::lemma_fundamental_div_mod(i as int, 4);
        }
        let e = i / 4;
        let v = i % 4;
        let rec = &src[e];
        let rec_len = rec.len();
        proof {
            assert(i as int <= i * c) by (nonlinear_arith)
                requires
                    c >= 1,
                    i >= 0,
            ;
            assert(rec@.len() >= 4 * s);
            assert(v * s + s <= 4 * s) by (nonlinear_arith)
                requires
                    v <= 3,
            ;
        }
        let mut b: usize = 0;
        while b < s
            invariant
                c == s + steps,
                c > 0,
                len == dest@.len(),
                before.len() == len,
                start == i * c,
                start + s <= len,
                b <= s,
                e == i / 4,
                v == i % 4,
                e < src@.len(),
                *rec == src@[e as int],
                v * s + s <= rec@.len(),
                rec_len == rec@.len(),
                i < len,
                forall|k: int|
                    0 <= k < start + b && k < len ==> #[trigger] dest@[k] == interleaved_byte(
                        before,
                        src@,
                        s as int,
                        steps as int,
                        k,
                    ),
                forall|k: int| start + b <= k < len ==> #[trigger] dest@[k] == before[k],
            decreases s - b,
        {
            proof {
                lemma_chunk_pos((start + b) as int, c as int, i as int, b as int);
            }
            dest[start + b] = rec[v * s + b];
            b = b + 1;
        }
        proof {
            assert forall|k: int| start + s <= k < start + c && k < len implies #[trigger] dest@[k]
                == interleaved_byte(before, src@, s as int, steps as int, k) by {
                lemma_chunk_pos(k, c as int, i as int, k - start);
            }
        }
        if len - start <= c {
            start = len;
        } else {
            start = start + c;
        }
        proof {
            assert((i + 1) * c == i * c + c) by (nonlinear_arith);
        }
        i = i + 1;
    }
}


/// Whether an interleaved copy stays in bounds (see `interleave_fits`).
pub fn copy_fits(len: usize, src: &Vec<Vec<u8>>, size_single_element: usize, steps: usize) -> (r:
    bool)
    requires
        size_single_element + steps <= usize::MAX,
    ensures
        r == interleave_fits(len as int, src@, size_single_element as int, steps as int),
{
    let c = size_single_element + steps;
    if c == 0 {
        return false;
    }
    let rem = len % c;
    if !(rem == 0 || rem >= size_single_element) {
        return false;
    }
    proof {
        if rem != 0 {
            assert(c >= 2);
            assert(len / c < usize::MAX) by (nonlinear_arith)
                requires
                    c >= 2,
            ;
        }
    }
    let chunks: usize = if rem == 0 {
        len / c
    } else {
        len / c + 1
    };
    let n = src.len();
    if chunks as u128 > 4 * (n as u128) {
        return false;
    }
    let need: u128 = 4 * (size_single_element as u128);
    let mut e: usize = 0;
    while e < n
        invariant
            n == src@.len(),
            e <= n,
            need == 4 * size_single_element,
            forall|k: int| 0 <= k < e ==> #[trigger] src@[k]@.len() >= need,
        decreases n - e,
    {
        if (src[e].len() as u128) < need {
            return false;
        }
        e = e + 1;
    }
    true
}

/// The type of the components of a vertex attribute.
#[derive(Copy, Clone, Debug, PartialEq, Eq, Structural)]
pub enum AttributeType {
    Float,
    UnsignedByte,
}

/// One attribute of a vertex: its components, their type, whether they are
/// normalised, and where in the vertex it starts.
#[derive(Copy, Clone, Debug, PartialEq, Eq, Structural)]
pub struct VertexAttribute {
    pub data_type_count: u32,
    pub graphics_type: AttributeType,
    pub normalized: bool,
    pub offset: usize,
}

/// How the vertices of a buffer are laid out: the distance between
/// vertices (0 for tightly packed) and the attributes.
pub struct VertexLayout {
    pub stride: usize,
    pub attributes: Vec<VertexAttribute>,
}

pub open spec fn attribute(count: u32, ty: AttributeType, normalized: bool, offset: usize) -> VertexAttribute {
    VertexAttribute { data_type_count: count, graphics_type: ty, normalized, offset }
}

/// The first byte after an attribute (a float component takes four bytes,
/// a byte component one).
pub open spec fn attribute_end(a: VertexAttribute) -> int {
    a.offset + match a.graphics_type {
        AttributeType::Float => 4 * a.data_type_count,
        AttributeType::UnsignedByte => a.data_type_count as int,
    }
}

/// The attributes follow each other without overlap and fit in the stride.
pub open spec fn layout_fits(stride: int, attrs: Seq<VertexAttribute>) -> bool {
    &&& forall|i: int| 0 <= i < attrs.len() ==> attribute_end(#[trigger] attrs[i]) <= stride
    &&& forall|i: int|
        0 <= i < attrs.len() - 1 ==> attribute_end(#[trigger] attrs[i]) <= attrs[i + 1].offset
}

/// The layout of a tile layer's vertices: a position of two floats, then,
/// when textured, a texture coordinate of three floats (20 bytes a vertex;
/// an untextured buffer is tightly packed).
pub fn tile_vertex_layout(textured: bool) -> (r: VertexLayout)
    ensures
        r.stride == if textured {
            20usize
        } else {
            0usize
        },
        r.attributes@ == if textured {
            seq![
                attribute(2, AttributeType::Float, false, 0),
                attribute(3, AttributeType::Float, false, 8),
            ]
        } else {
            seq![attribute(2, AttributeType::Float, false, 0)]
        },
        textured ==> layout_fits(r.stride as int, r.attributes@),
{
    let mut attributes: Vec<VertexAttribute> = Vec::new();
    attributes.push(
        VertexAttribute {
            data_type_count: 2,
            graphics_type: AttributeType::Float,
            normalized: false,
            offset: 0,
        },
    );
    if textured {
        attributes.push(
            VertexAttribute {
                data_type_count: 3,
                graphics_type: AttributeType::Float,
                normalized: false,
                offset: 8,
            },
        );
    }
    VertexLayout { stride: if textured { 20 } else { 0 }, attributes }
}

/// The layout of a quad layer's vertices: position and center as four
/// floats, the color as four normalised bytes, then, when textured, a
/// texture coordinate of two floats (28 bytes a vertex, else 20).
pub fn quad_vertex_layout(textured: bool) -> (r: VertexLayout)
    ensures
        r.stride == if textured {
            28usize
        } else {
            20usize
        },
        r.attributes@ == if textured {
            seq![
                attribute(4, AttributeType::Float, false, 0),
                attribute(4, AttributeType::UnsignedByte, true, 16),
                attribute(2, AttributeType::Float, false, 20),
            ]
        } else {
            seq![
                attribute(4, AttributeType::Float, false, 0),
                attribute(4, AttributeType::UnsignedByte, true, 16),
            ]
        },
        layout_fits(r.stride as int, r.attributes@),
{
    let mut attributes: Vec<VertexAttribute> = Vec::new();
    attributes.push(
        VertexAttribute {
            data_type_count: 4,
            graphics_type: AttributeType::Float,
            normalized: false,
            offset: 0,
        },
    );
    attributes.push(
        VertexAttribute {
            data_type_count: 4,
            graphics_type: AttributeType::UnsignedByte,
            normalized: true,
            offset: 16,
        },
    );
    if textured {
        attributes.push(
            VertexAttribute {
                data_type_count: 2,
                graphics_type: AttributeType::Float,
                normalized: false,
                offset: 20,
            },
        );
    }
    VertexLayout { stride: if textured { 28 } else { 20 }, attributes }
}

/// Bytes of a tile layer's vertex buffer: four vertices a tile, each a
/// position of two floats and, when textured, a texture coordinate of three.
pub open spec fn tile_upload_len(tiles: int, textured: bool) -> int {
    tiles * if textured {
        80int
    } else {
        32int
    }
}

/// Bytes of a quad layer's vertex buffer: per vertex four floats and four
/// color bytes and, when textured, two floats of texture coordinate.
pub open spec fn quad_upload_len(vertices: int, textured: bool) -> int {
    vertices * if textured {
        28int
    } else {
        20int
    }
}

/// The zeroed vertex buffer of a tile layer's upload, which the vertex and
/// texture records are interleaved into.
pub fn tile_upload_buffer(up: &TileLayerUpload) -> (r: Vec<u8>)
    requires
        up.tiles@.len() * 80 <= usize::MAX,
    ensures
        r@.len() == tile_upload_len(up.tiles@.len() as int, up.textured),
        forall|i: int| 0 <= i < r@.len() ==> #[trigger] r@[i] == 0,
{
    let per_tile: usize = if up.textured {
        80
    } else {
        32
    };
    let n = up.tiles.len() * per_tile;
    let mut r: Vec<u8> = Vec::new();
    while r.len() < n
        invariant
            r@.len() <= n,
            forall|i: int| 0 <= i < r@.len() ==> #[trigger] r@[i] == 0,
        decreases n - r@.len(),
    {
        r.push(0);
    }
    r
}

/// Length of a quad layer's vertex buffer.
pub fn quad_upload_byte_len(up: &QuadLayerUpload) -> (r: usize)
    requires
        up.vertices@.len() * 28 <= usize::MAX,
    ensures
        r == quad_upload_len(up.vertices@.len() as int, up.textured),
{
    up.vertices.len() * if up.textured {
        28
    } else {
        20
    }
}

} // verus!

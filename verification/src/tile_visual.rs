//! Per-tile and per-quad visual records of a buffered map layer.
//!
//! A tile visual packs the byte offset of its quad in the index buffer
//! together with a "draw" flag in the lowest bit of a single `u32`.

use vstd::prelude::*;

verus! {

/// Mask that keeps the byte offset part of a packed tile visual.
pub const OFFSET_MASK: u32 = 0xFFFF_FFFE;

/// Mask that keeps the draw bit of a packed tile visual.
pub const DRAW_MASK: u32 = 0x0000_0001;

#[derive(Copy, Clone)]
pub struct STileVisual {
    index_buffer_byte_offset: u32,
}

impl STileVisual {
    /// The raw packed value (offset in the upper 31 bits, draw flag in bit 0).
    pub closed spec fn raw(self) -> u32 {
        self.index_buffer_byte_offset
    }

    /// The byte offset into the index buffer this visual points to.
    pub open spec fn offset(self) -> u32 {
        self.raw() & OFFSET_MASK
    }

    /// Whether the tile this visual stands for is drawn.
    pub open spec fn draws(self) -> bool {
        self.raw() & DRAW_MASK != 0
    }

    /// A visual whose offset is `offset` (even) and whose flag is `draw`.
    pub open spec fn is(self, offset: int, draw: bool) -> bool {
        &&& self.offset() == offset
        &&& self.draws() == draw
    }

    pub fn empty() -> (r: Self)
        ensures
            r.raw() == 0,
            r.is(0, false),
    {
        proof {
            assert(0u32 & OFFSET_MASK == 0) by (bit_vector);
            assert(0u32 & DRAW_MASK == 0) by (bit_vector);
        }
        STileVisual { index_buffer_byte_offset: 0 }
    }

    pub fn do_draw(&self) -> (r: bool)
        ensures
            r == self.draws(),
    {
        (self.index_buffer_byte_offset & DRAW_MASK) != 0
    }

    pub fn draw(&mut self, set_draw: bool)
        ensures
            final(self).draws() == set_draw,
            final(self).offset() == old(self).offset(),
    {
        let old_raw = self.index_buffer_byte_offset;
        let bit: u32 = if set_draw { 1 } else { 0 };
        let new_raw = bit | (old_raw & OFFSET_MASK);
        proof {
            assert((bit == 1 || bit == 0) ==> ((bit | (old_raw & 0xFFFF_FFFEu32)) & 0xFFFF_FFFEu32
                == old_raw & 0xFFFF_FFFEu32)) by (bit_vector);
            assert(bit == 1 ==> ((bit | (old_raw & 0xFFFF_FFFEu32)) & 1u32 != 0)) by (bit_vector);
            assert(bit == 0 ==> ((bit | (old_raw & 0xFFFF_FFFEu32)) & 1u32 == 0)) by (bit_vector);
        }
        self.index_buffer_byte_offset = new_raw;
    }

    pub fn index_buffer_byte_offset(&self) -> (r: usize)
        ensures
            r == self.offset(),
    {
        (self.index_buffer_byte_offset & OFFSET_MASK) as usize
    }

    pub fn set_index_buffer_offset(&mut self, index_buffer_byte_off: u32)
        ensures
            final(self).raw() == index_buffer_byte_off | (old(self).raw() & DRAW_MASK),
            final(self).offset() == index_buffer_byte_off & OFFSET_MASK,
            final(self).draws() == (old(self).draws() || index_buffer_byte_off & DRAW_MASK != 0),
            index_buffer_byte_off % 2 == 0 ==> final(self).is(
                index_buffer_byte_off as int,
                old(self).draws(),
            ),
    {
        let old_raw = self.index_buffer_byte_offset;
        let off = index_buffer_byte_off;
        let new_raw = off | (old_raw & DRAW_MASK);
        proof {
            assert((off | (old_raw & 1u32)) & 0xFFFF_FFFEu32 == off & 0xFFFF_FFFEu32) by (bit_vector);
            assert(((off | (old_raw & 1u32)) & 1u32 != 0) == ((old_raw & 1u32 != 0) || (off & 1u32
                != 0))) by (bit_vector);
            assert(off % 2 == 0 ==> off & 0xFFFF_FFFEu32 == off && off & 1u32 == 0) by (bit_vector);
        }
        self.index_buffer_byte_offset = new_raw;
    }

    pub fn add_index_buffer_byte_offset(&mut self, index_buffer_byte_off: u32)
        requires
            old(self).offset() + index_buffer_byte_off <= u32::MAX,
        ensures
            final(self).offset() == ((old(self).offset() + index_buffer_byte_off) as u32)
                & OFFSET_MASK,
            final(self).draws() == (old(self).draws() || ((old(self).offset()
                + index_buffer_byte_off) as u32) & DRAW_MASK != 0),
            index_buffer_byte_off % 2 == 0 ==> final(self).is(
                old(self).offset() + index_buffer_byte_off,
                old(self).draws(),
            ),
    {
        let old_raw = self.index_buffer_byte_offset;
        let off = index_buffer_byte_off;
        let sum = (old_raw & OFFSET_MASK) + off;
        let new_raw = sum | (old_raw & DRAW_MASK);
        proof {
            assert((sum | (old_raw & 1u32)) & 0xFFFF_FFFEu32 == sum & 0xFFFF_FFFEu32) by (bit_vector);
            assert(((sum | (old_raw & 1u32)) & 1u32 != 0) == ((old_raw & 1u32 != 0) || (sum & 1u32
                != 0))) by (bit_vector);
            assert((old_raw & 0xFFFF_FFFEu32) % 2 == 0) by (bit_vector);
            assert(sum % 2 == 0 ==> sum & 0xFFFF_FFFEu32 == sum && sum & 1u32 == 0) by (bit_vector);
        }
        self.index_buffer_byte_offset = new_raw;
    }
}

impl Default for STileVisual {
    fn default() -> (r: Self)
        ensures
            r.raw() == 0,
            r.is(0, false),
    {
        STileVisual::empty()
    }
}


pub proof fn lemma_mul_u32_fits_u64(a: u32, b: u32)
    ensures
        (a as int) * (b as int) <= u64::MAX,
        0 <= (a as int) * (b as int),
{
    assert(0 <= (a as int) * (b as int) <= 0xFFFF_FFFFint * 0xFFFF_FFFFint) by (nonlinear_arith)
        requires
            0 <= a <= 0xFFFF_FFFFint,
            0 <= b <= 0xFFFF_FFFFint,
    ;
}

/// `v` is `old` resized to `n` entries, new entries being empty visuals.
pub open spec fn resized(v: Seq<STileVisual>, old: Seq<STileVisual>, n: int) -> bool {
    &&& v.len() == n
    &&& forall|i: int| 0 <= i < n && i < old.len() ==> v[i] == old[i]
    &&& forall|i: int| 0 <= i < n && i >= old.len() ==> (#[trigger] v[i]).raw() == 0
}

/// Resizes a list of visuals to `n` entries, appending empty visuals.
pub fn resize_visuals(v: &mut Vec<STileVisual>, n: usize)
    ensures
        resized(final(v)@, old(v)@, n as int),
{
    v.truncate(n);
    while v.len() < n
        invariant
            v.len() <= n,
            n <= old(v).len() ==> v.len() == n,
            v.len() >= old(v).len() || v.len() == n,
            forall|i: int| 0 <= i < v.len() && i < old(v).len() ==> v@[i] == old(v)@[i],
            forall|i: int| 0 <= i < v.len() && i >= old(v).len() ==> (#[trigger] v@[i]).raw() == 0,
        decreases n - v.len(),
    {
        v.push(STileVisual::empty());
    }
}

/// The visuals of a tile layer: one per tile, one per border tile outside
/// the corners, the four corners and the kill-tile border of the game layer.
pub struct STileLayerVisualsBase {
    pub tiles_of_layer: Vec<STileVisual>,
    pub border_top_left: STileVisual,
    pub border_top_right: STileVisual,
    pub border_bottom_right: STileVisual,
    pub border_bottom_left: STileVisual,
    /// end of map kill tile -- game layer only
    pub border_kill_tile: STileVisual,
    pub border_top: Vec<STileVisual>,
    pub border_left: Vec<STileVisual>,
    pub border_right: Vec<STileVisual>,
    pub border_bottom: Vec<STileVisual>,
    pub width: u32,
    pub height: u32,
    pub is_textured: bool,
}

impl STileLayerVisualsBase {
    /// The visuals are all empty and the layer has no size.
    pub open spec fn is_empty_layer(&self) -> bool {
        &&& self.tiles_of_layer@.len() == 0
        &&& self.border_top@.len() == 0
        &&& self.border_left@.len() == 0
        &&& self.border_right@.len() == 0
        &&& self.border_bottom@.len() == 0
        &&& self.border_top_left.raw() == 0
        &&& self.border_top_right.raw() == 0
        &&& self.border_bottom_right.raw() == 0
        &&& self.border_bottom_left.raw() == 0
        &&& self.border_kill_tile.raw() == 0
        &&& self.width == 0
        &&& self.height == 0
        &&& !self.is_textured
    }

    pub fn new() -> (r: Self)
        ensures
            r.is_empty_layer(),
    {
        STileLayerVisualsBase {
            tiles_of_layer: Vec::new(),
            border_top_left: STileVisual::empty(),
            border_top_right: STileVisual::empty(),
            border_bottom_right: STileVisual::empty(),
            border_bottom_left: STileVisual::empty(),
            border_kill_tile: STileVisual::empty(),
            border_top: Vec::new(),
            border_left: Vec::new(),
            border_right: Vec::new(),
            border_bottom: Vec::new(),
            width: 0,
            height: 0,
            is_textured: false,
        }
    }

    /// A layer of this size can be buffered: it is not empty and its tile
    /// count stays below `u32::MAX`.
    pub open spec fn valid_size(width: u32, height: u32) -> bool {
        width != 0 && height != 0 && (width as int) * (height as int) < u32::MAX
    }

    /// Sets the size of the layer and sizes the visual lists for it; fails
    /// (leaving the lists as they are) when the size is not valid.
    pub fn init(&mut self, width: u32, height: u32) -> (r: bool)
        ensures
            r == Self::valid_size(width, height),
            final(self).width == width,
            final(self).height == height,
            final(self).is_textured == old(self).is_textured,
            final(self).border_top_left == old(self).border_top_left,
            final(self).border_top_right == old(self).border_top_right,
            final(self).border_bottom_right == old(self).border_bottom_right,
            final(self).border_bottom_left == old(self).border_bottom_left,
            final(self).border_kill_tile == old(self).border_kill_tile,
            !r ==> {
                &&& final(self).tiles_of_layer@ == old(self).tiles_of_layer@
                &&& final(self).border_top@ == old(self).border_top@
                &&& final(self).border_bottom@ == old(self).border_bottom@
                &&& final(self).border_left@ == old(self).border_left@
                &&& final(self).border_right@ == old(self).border_right@
            },
            r ==> {
                &&& resized(
                    final(self).tiles_of_layer@,
                    old(self).tiles_of_layer@,
                    width as int * height as int,
                )
                &&& width > 2 ==> resized(final(self).border_top@, old(self).border_top@, width - 2)
                &&& width > 2 ==> resized(
                    final(self).border_bottom@,
                    old(self).border_bottom@,
                    width - 2,
                )
                &&& width <= 2 ==> final(self).border_top@ == old(self).border_top@
                &&& width <= 2 ==> final(self).border_bottom@ == old(self).border_bottom@
                &&& height > 2 ==> resized(final(self).border_left@, old(self).border_left@, height - 2)
                &&& height > 2 ==> resized(
                    final(self).border_right@,
                    old(self).border_right@,
                    height - 2,
                )
                &&& height <= 2 ==> final(self).border_left@ == old(self).border_left@
                &&& height <= 2 ==> final(self).border_right@ == old(self).border_right@
            },
    {
        self.width = width;
        self.height = height;
        if width == 0 || height == 0 {
            return false;
        }
        proof {
            lemma_mul_u32_fits_u64(width, height);
        }
        if width as u64 * height as u64 >= u32::MAX as u64 {
            return false;
        }
        let n = (width as u64 * height as u64) as usize;
        resize_visuals(&mut self.tiles_of_layer, n);
        if width > 2 {
            resize_visuals(&mut self.border_top, (width - 2) as usize);
            resize_visuals(&mut self.border_bottom, (width - 2) as usize);
        }
        if height > 2 {
            resize_visuals(&mut self.border_left, (height - 2) as usize);
            resize_visuals(&mut self.border_right, (height - 2) as usize);
        }
        true
    }
}

impl Default for STileLayerVisualsBase {
    fn default() -> (r: Self)
        ensures
            r.is_empty_layer(),
    {
        STileLayerVisualsBase::new()
    }
}

/// The visual record of one map quad: the byte offset of its indices.
#[derive(Copy, Clone)]
pub struct SQuadVisual {
    pub index_buffer_byte_offset: usize,
}

/// The visuals of a quad layer.
pub struct SQuadLayerVisualsBase {
    pub quad_num: usize,
    pub quads_of_layer: Vec<SQuadVisual>,
    pub is_textured: bool,
}

impl SQuadLayerVisualsBase {
    pub fn new() -> (r: Self)
        ensures
            r.quad_num == 0,
            r.quads_of_layer@.len() == 0,
            !r.is_textured,
    {
        SQuadLayerVisualsBase { quad_num: 0, quads_of_layer: Vec::new(), is_textured: false }
    }
}

impl Default for SQuadLayerVisualsBase {
    fn default() -> (r: Self)
        ensures
            r.quad_num == 0,
            r.quads_of_layer@.len() == 0,
            !r.is_textured,
    {
        SQuadLayerVisualsBase::new()
    }
}

} // verus!

//! Preparation of a tile layer for upload: which tile each cell shows, the
//! quads and texture coordinates of all tiles that are drawn, and the
//! visual records that let the renderer find the quads of any range of
//! cells again.
//!
//! The uploaded quad list is, in this order: the tiles of the layer in
//! row-major order, the kill tile of the game layer, the four corner tiles,
//! then the tiles of the top, bottom, left and right border rows without
//! their corners. Every visual record holds the byte offset of the first
//! quad of its list at or after its own cell, and whether its cell got a
//! quad.

use vstd::prelude::*;
use crate::tile_geometry::{
    add_tile, added_tex, added_tile, fits_grid, SGraphicTile, SGraphicTileTexureCoords, TILE_SCALE,
};
use crate::tile_visual::{STileLayerVisualsBase, STileVisual};

verus! {

/// Tile index of the death tile.
pub const TILE_DEATH: u8 = 2;
/// Tile type of a switch that opens for a limited time.
pub const TILE_SWITCHTIMEDOPEN: u8 = 22;
/// Index the timed-open switch is shown with on the switch layer.
pub const SWITCH_TIMED_OPEN_SHOWN_AS: u8 = 8;
/// Tile type of a teleporter check-in.
pub const TILE_TELECHECKIN: u8 = 31;
/// Tile type of an evil teleporter check-in.
pub const TILE_TELECHECKINEVIL: u8 = 63;
/// Bytes of indices one tile quad takes: six `u32` indices.
pub const TILE_INDEX_BYTES: usize = 24;

/// A cell of a design, game or front layer.
#[derive(Copy, Clone)]
pub struct MapTile {
    pub index: u8,
    pub flags: u8,
    /// Number of following cells of the row that hold nothing to draw.
    pub skip: u8,
}

/// A cell of a switch layer.
#[derive(Copy, Clone)]
pub struct SwitchTile {
    pub number: u8,
    pub tile_type: u8,
    pub flags: u8,
    pub delay: u8,
}

/// A cell of a teleporter layer.
#[derive(Copy, Clone)]
pub struct TeleTile {
    pub number: u8,
    pub tile_type: u8,
}

/// A cell of a speedup layer.
#[derive(Copy, Clone)]
pub struct SpeedupTile {
    pub force: u8,
    pub max_speed: u8,
    pub tile_type: u8,
    pub angle: i16,
}

/// A cell of a tune layer.
#[derive(Copy, Clone)]
pub struct TuneTile {
    pub number: u8,
    pub tile_type: u8,
}

/// The entity-specific cells of a tile layer, where it has them.
pub enum MapTileLayerDetail {
    Tile,
    Switch(Vec<SwitchTile>),
    Tele(Vec<TeleTile>),
    Speedup(Vec<SpeedupTile>),
    Tune(Vec<TuneTile>),
}

/// What the map says a tile layer is.
#[derive(Copy, Clone)]
pub struct TileLayerKind {
    pub is_game: bool,
    pub is_front: bool,
    pub is_switch: bool,
    pub is_tele: bool,
    pub is_speedup: bool,
    pub is_tune: bool,
}

impl TileLayerKind {
    pub open spec fn is_entity(self) -> bool {
        self.is_game || self.is_front || self.is_switch || self.is_tele || self.is_speedup
            || self.is_tune
    }

    pub fn entity(&self) -> (r: bool)
        ensures
            r == self.is_entity(),
    {
        self.is_game || self.is_front || self.is_switch || self.is_tele || self.is_speedup
            || self.is_tune
    }
}

/// Index and flags a switch cell shows on the given overlay.
pub open spec fn switch_cell(t: SwitchTile, overlay: u32) -> (u8, u8) {
    if overlay == 0 {
        (
            if t.tile_type == TILE_SWITCHTIMEDOPEN {
                SWITCH_TIMED_OPEN_SHOWN_AS
            } else {
                t.tile_type
            },
            t.flags,
        )
    } else if overlay == 1 {
        (t.number, 0)
    } else if overlay == 2 {
        (t.delay, 0)
    } else {
        (t.tile_type, 0)
    }
}

/// Index and flags a teleporter cell shows on the given overlay.
pub open spec fn tele_cell(t: TeleTile, overlay: u32) -> (u8, u8) {
    if overlay == 1 {
        (
            if t.tile_type != TILE_TELECHECKIN && t.tile_type != TILE_TELECHECKINEVIL {
                t.number
            } else {
                0
            },
            0,
        )
    } else {
        (t.tile_type, 0)
    }
}

/// Index and flags a speedup cell shows on the given overlay.
pub open spec fn speedup_cell(t: SpeedupTile, overlay: u32) -> (u8, u8) {
    if t.force == 0 {
        (0, 0)
    } else if overlay == 1 {
        (t.force, 0)
    } else if overlay == 2 {
        (t.max_speed, 0)
    } else {
        (t.tile_type, 0)
    }
}

/// Index and flags cell `i` of a layer shows on the given overlay. For
/// entity layers every kind the layer has overrides the ones before it, in
/// the order game, front, switch, tele, speedup, tune.
pub open spec fn cell_source(
    kind: TileLayerKind,
    tiles: Seq<MapTile>,
    detail: MapTileLayerDetail,
    i: int,
    overlay: u32,
) -> (u8, u8) {
    if !kind.is_entity() {
        (tiles[i].index, tiles[i].flags)
    } else {
        let s1: (u8, u8) = if kind.is_game { (tiles[i].index, tiles[i].flags) } else { (0, 0) };
        let s2 = if kind.is_front { (tiles[i].index, tiles[i].flags) } else { s1 };
        let s3 = if kind.is_switch {
            match detail {
                MapTileLayerDetail::Switch(v) => switch_cell(v@[i], overlay),
                _ => s2,
            }
        } else {
            s2
        };
        let s4 = if kind.is_tele {
            match detail {
                MapTileLayerDetail::Tele(v) => tele_cell(v@[i], overlay),
                _ => s3,
            }
        } else {
            s3
        };
        let s5 = if kind.is_speedup {
            match detail {
                MapTileLayerDetail::Speedup(v) => speedup_cell(v@[i], overlay),
                _ => s4,
            }
        } else {
            s4
        };
        if kind.is_tune {
            match detail {
                MapTileLayerDetail::Tune(v) => (v@[i].tile_type, 0),
                _ => s5,
            }
        } else {
            s5
        }
    }
}

/// The cell lists that the layer's kind reads hold at least `n` cells.
pub open spec fn sources_cover(
    kind: TileLayerKind,
    tiles: Seq<MapTile>,
    detail: MapTileLayerDetail,
    n: int,
) -> bool {
    &&& (!kind.is_entity() || kind.is_game || kind.is_front) ==> tiles.len() >= n
    &&& kind.is_switch ==> (detail matches MapTileLayerDetail::Switch(v) ==> v@.len() >= n)
    &&& kind.is_tele ==> (detail matches MapTileLayerDetail::Tele(v) ==> v@.len() >= n)
    &&& kind.is_speedup ==> (detail matches MapTileLayerDetail::Speedup(v) ==> v@.len() >= n)
    &&& kind.is_tune ==> (detail matches MapTileLayerDetail::Tune(v) ==> v@.len() >= n)
}

/// The (index, flags) of all `n` cells of the layer.
pub open spec fn layer_cells(
    kind: TileLayerKind,
    tiles: Seq<MapTile>,
    detail: MapTileLayerDetail,
    n: int,
    overlay: u32,
) -> Seq<(u8, u8)> {
    Seq::new(n as nat, |i: int| cell_source(kind, tiles, detail, i, overlay))
}

/// Index and flags of cell `i`.
pub fn cell_at(
    kind: &TileLayerKind,
    tiles: &Vec<MapTile>,
    detail: &MapTileLayerDetail,
    i: usize,
    overlay: u32,
) -> (r: (u8, u8))
    requires
        sources_cover(*kind, tiles@, *detail, i + 1),
    ensures
        r == cell_source(*kind, tiles@, *detail, i as int, overlay),
{
    if !kind.entity() {
        return (tiles[i].index, tiles[i].flags);
    }
    let mut index: u8 = 0;
    let mut flags: u8 = 0;
    if kind.is_game {
        index = tiles[i].index;
        flags = tiles[i].flags;
    }
    if kind.is_front {
        index = tiles[i].index;
        flags = tiles[i].flags;
    }
    if kind.is_switch {
        if let MapTileLayerDetail::Switch(switch_tiles) = detail {
            flags = 0;
            index = switch_tiles[i].tile_type;
            if overlay == 0 {
                flags = switch_tiles[i].flags;
                if index == TILE_SWITCHTIMEDOPEN {
                    index = SWITCH_TIMED_OPEN_SHOWN_AS;
                }
            } else if overlay == 1 {
                index = switch_tiles[i].number;
            } else if overlay == 2 {
                index = switch_tiles[i].delay;
            }
        }
    }
    if kind.is_tele {
        if let MapTileLayerDetail::Tele(tele_tiles) = detail {
            index = tele_tiles[i].tile_type;
            flags = 0;
            if overlay == 1 {
                if index != TILE_TELECHECKIN && index != TILE_TELECHECKINEVIL {
                    index = tele_tiles[i].number;
                } else {
                    index = 0;
                }
            }
        }
    }
    if kind.is_speedup {
        if let MapTileLayerDetail::Speedup(speedup_tiles) = detail {
            index = speedup_tiles[i].tile_type;
            flags = 0;
            if speedup_tiles[i].force == 0 {
                index = 0;
            } else if overlay == 1 {
                index = speedup_tiles[i].force;
            } else if overlay == 2 {
                index = speedup_tiles[i].max_speed;
            }
        }
    }
    if kind.is_tune {
        if let MapTileLayerDetail::Tune(tune_tiles) = detail {
            index = tune_tiles[i].tile_type;
            flags = 0;
        }
    }
    (index, flags)
}

/// The (index, flags) of the first `n` cells.
pub fn collect_cells(
    kind: &TileLayerKind,
    tiles: &Vec<MapTile>,
    detail: &MapTileLayerDetail,
    n: usize,
    overlay: u32,
) -> (r: Vec<(u8, u8)>)
    requires
        sources_cover(*kind, tiles@, *detail, n as int),
    ensures
        r@ == layer_cells(*kind, tiles@, *detail, n as int, overlay),
{
    let mut r: Vec<(u8, u8)> = Vec::new();
    let mut i: usize = 0;
    while i < n
        invariant
            i <= n,
            sources_cover(*kind, tiles@, *detail, n as int),
            r@.len() == i,
            forall|j: int|
                0 <= j < i ==> #[trigger] r@[j] == cell_source(*kind, tiles@, *detail, j, overlay),
        decreases n - i,
    {
        let c = cell_at(kind, tiles, detail, i, overlay);
        r.push(c);
        i = i + 1;
    }
    assert(r@ =~= layer_cells(*kind, tiles@, *detail, n as int, overlay));
    r
}

/// Index and flags of a segment entry; an absent entry shows nothing.
pub open spec fn opt_cell(cells: Seq<(u8, u8)>, o: Option<usize>) -> (u8, u8) {
    match o {
        Some(c) => cells[c as int],
        None => (0, 0),
    }
}

/// Whether a segment entry gets a quad.
pub open spec fn entry_drawn(cells: Seq<(u8, u8)>, o: Option<usize>) -> bool {
    opt_cell(cells, o).0 > 0
}

/// The quads of the drawn entries of a segment, in segment order.
pub open spec fn seg_tiles(
    cells: Seq<(u8, u8)>,
    w: int,
    seg: Seq<Option<usize>>,
    speedup: bool,
) -> Seq<SGraphicTile>
    decreases seg.len(),
{
    if seg.len() == 0 {
        Seq::empty()
    } else {
        let prev = seg_tiles(cells, w, seg.drop_last(), speedup);
        match seg.last() {
            Some(c) => if cells[c as int].0 > 0 {
                prev.push(added_tile((c as int) % w, (c as int) / w, speedup))
            } else {
                prev
            },
            None => prev,
        }
    }
}

/// The texture coordinates of the drawn entries of a segment.
pub open spec fn seg_tex(
    cells: Seq<(u8, u8)>,
    seg: Seq<Option<usize>>,
    speedup: bool,
) -> Seq<SGraphicTileTexureCoords>
    decreases seg.len(),
{
    if seg.len() == 0 {
        Seq::empty()
    } else {
        let prev = seg_tex(cells, seg.drop_last(), speedup);
        match seg.last() {
            Some(c) => if cells[c as int].0 > 0 {
                prev.push(added_tex(cells[c as int].0, cells[c as int].1, speedup))
            } else {
                prev
            },
            None => prev,
        }
    }
}

/// Number of drawn entries among the first `k` of a segment.
pub open spec fn seg_count(cells: Seq<(u8, u8)>, seg: Seq<Option<usize>>, k: int) -> int
    decreases k,
{
    if k <= 0 {
        0
    } else {
        seg_count(cells, seg, k - 1) + if entry_drawn(cells, seg[k - 1]) {
            1int
        } else {
            0int
        }
    }
}

pub proof fn lemma_seg_len(cells: Seq<(u8, u8)>, w: int, seg: Seq<Option<usize>>, speedup: bool)
    ensures
        seg_tiles(cells, w, seg, speedup).len() == seg_count(cells, seg, seg.len() as int),
        seg_tex(cells, seg, speedup).len() == seg_count(cells, seg, seg.len() as int),
        0 <= seg_count(cells, seg, seg.len() as int) <= seg.len(),
    decreases seg.len(),
{
    if seg.len() > 0 {
        let p = seg.drop_last();
        lemma_seg_len(cells, w, p, speedup);
        lemma_seg_count_prefix(cells, seg, p, seg.len() - 1);
    }
}

/// The count over a prefix only depends on the prefix.
pub proof fn lemma_seg_count_prefix(
    cells: Seq<(u8, u8)>,
    s: Seq<Option<usize>>,
    t: Seq<Option<usize>>,
    k: int,
)
    requires
        0 <= k <= s.len(),
        k <= t.len(),
        forall|j: int| 0 <= j < k ==> s[j] == t[j],
    ensures
        seg_count(cells, s, k) == seg_count(cells, t, k),
    decreases k,
{
    if k > 0 {
        lemma_seg_count_prefix(cells, s, t, k - 1);
    }
}

/// Counts are monotone in the prefix length and grow by at most one.
pub proof fn lemma_seg_count_mono(cells: Seq<(u8, u8)>, s: Seq<Option<usize>>, a: int, b: int)
    requires
        0 <= a <= b,
    ensures
        seg_count(cells, s, a) <= seg_count(cells, s, b) <= seg_count(cells, s, a) + (b - a),
    decreases b - a,
{
    if a < b {
        lemma_seg_count_mono(cells, s, a, b - 1);
    }
}

/// The visual records of a segment: each holds the byte offset of the quad
/// list at its entry (the list starting at `base` quads) and whether its
/// entry got a quad.
pub open spec fn visuals_match(
    vis: Seq<STileVisual>,
    cells: Seq<(u8, u8)>,
    seg: Seq<Option<usize>>,
    base: int,
) -> bool {
    &&& vis.len() == seg.len()
    &&& forall|k: int|
        0 <= k < seg.len() ==> (#[trigger] vis[k]).is(
            TILE_INDEX_BYTES * (base + seg_count(cells, seg, k)),
            entry_drawn(cells, seg[k]),
        )
}

/// Cell indices present in a segment lie inside the layer, and the grid
/// positions of all cells fit the tile geometry.
pub open spec fn seg_in_layer(seg: Seq<Option<usize>>, n: int) -> bool {
    forall|k: int| 0 <= k < seg.len() ==> (#[trigger] seg[k] matches Some(c) ==> c < n)
}

/// The layer's width and height keep all quad corners and byte offsets
/// inside their integer types.
pub open spec fn fits_upload(w: int, h: int) -> bool {
    &&& (w * h + 2 * w + 2 * h + 5) * TILE_INDEX_BYTES <= u32::MAX
    &&& w * TILE_SCALE <= i32::MAX
    &&& h * TILE_SCALE <= i32::MAX
}

pub proof fn lemma_cell_position(c: int, w: int, h: int)
    requires
        0 <= c < w * h,
        0 < w,
        0 < h,
        w * TILE_SCALE <= i32::MAX,
        h * TILE_SCALE <= i32::MAX,
    ensures
        0 <= c % w < w,
        0 <= c / w < h,
        fits_grid(c % w, c / w, TILE_SCALE as int),
{
    assert(0 <= c % w < w) by (nonlinear_arith)
        requires
            0 < w,
    ;
    assert(0 <= c / w < h) by (nonlinear_arith)
        requires
            0 <= c < w * h,
            0 < w,
            0 < h,
    ;
    let x = c % w;
    let y = c / w;
    assert(x * 32 + 32 <= w * 32 && 0 <= x * 32) by (nonlinear_arith)
        requires
            0 <= x < w,
    ;
    assert(y * 32 + 32 <= h * 32 && 0 <= y * 32) by (nonlinear_arith)
        requires
            0 <= y < h,
    ;
}

/// Appends the quads of the drawn entries of a segment and returns the
/// segment's visual records.
pub fn push_segment(
    cells: &Vec<(u8, u8)>,
    w: usize,
    h: usize,
    seg: &Vec<Option<usize>>,
    speedup: bool,
    do_texture_coords: bool,
    tmp_tiles: &mut Vec<SGraphicTile>,
    tmp_tex: &mut Vec<SGraphicTileTexureCoords>,
) -> (vis: Vec<STileVisual>)
    requires
        0 < w,
        0 < h,
        cells@.len() == w * h,
        w * TILE_SCALE <= i32::MAX,
        h * TILE_SCALE <= i32::MAX,
        seg_in_layer(seg@, cells@.len() as int),
        (old(tmp_tiles)@.len() + seg@.len()) * TILE_INDEX_BYTES <= u32::MAX,
    ensures
        final(tmp_tiles)@ == old(tmp_tiles)@ + seg_tiles(cells@, w as int, seg@, speedup),
        do_texture_coords ==> final(tmp_tex)@ == old(tmp_tex)@ + seg_tex(cells@, seg@, speedup),
        !do_texture_coords ==> final(tmp_tex)@ == old(tmp_tex)@,
        visuals_match(vis@, cells@, seg@, old(tmp_tiles)@.len() as int),
{
    let ghost base = tmp_tiles@.len() as int;
    let ghost tiles0 = tmp_tiles@;
    let ghost tex0 = tmp_tex@;
    let mut vis: Vec<STileVisual> = Vec::new();
    let mut k: usize = 0;
    while k < seg.len()
        invariant
            0 < w,
            0 < h,
            cells@.len() == w * h,
            w * TILE_SCALE <= i32::MAX,
            h * TILE_SCALE <= i32::MAX,
            seg_in_layer(seg@, cells@.len() as int),
            (base + seg@.len()) * TILE_INDEX_BYTES <= u32::MAX,
            k <= seg@.len(),
            tmp_tiles@ == tiles0 + seg_tiles(cells@, w as int, seg@.take(k as int), speedup),
            do_texture_coords ==> tmp_tex@ == tex0 + seg_tex(cells@, seg@.take(k as int), speedup),
            !do_texture_coords ==> tmp_tex@ == tex0,
            tmp_tiles@.len() == base + seg_count(cells@, seg@, k as int),
            base == tiles0.len(),
            vis@.len() == k,
            forall|j: int|
                0 <= j < k ==> (#[trigger] vis@[j]).is(
                    TILE_INDEX_BYTES * (base + seg_count(cells@, seg@, j)),
                    entry_drawn(cells@, seg@[j]),
                ),
        decreases seg@.len() - k,
    {
        proof {
            lemma_seg_count_mono(cells@, seg@, k as int, seg@.len() as int);
            lemma_seg_count_mono(cells@, seg@, 0, k as int);
            assert(seg@.take(k as int + 1).drop_last() =~= seg@.take(k as int));
            assert(seg@.take(k as int + 1).last() == seg@[k as int]);
        }
        let count = tmp_tiles.len();
        let mut v = STileVisual::empty();
        v.set_index_buffer_offset((count * TILE_INDEX_BYTES) as u32);
        match seg[k] {
            Some(c) => {
                proof {
                    lemma_cell_position(c as int, w as int, h as int);
                }
                let (index, flags) = cells[c];
                let x = (c % w) as i32;
                let y = (c / w) as i32;
                if add_tile(tmp_tiles, tmp_tex, index, flags, x, y, do_texture_coords, speedup) {
                    v.draw(true);
                }
            },
            None => {},
        }
        vis.push(v);
        k = k + 1;
    }
    assert(seg@.take(seg@.len() as int) =~= seg@);
    vis
}


/// The entries `start + k * step` (k < len), present or all absent.
pub open spec fn range_seg(len: int, start: int, step: int, present: bool) -> Seq<Option<usize>> {
    Seq::new(
        len as nat,
        |k: int|
            if present {
                Some((start + k * step) as usize)
            } else {
                None
            },
    )
}

pub fn make_range_seg(len: usize, start: usize, step: usize, present: bool) -> (r: Vec<
    Option<usize>,
>)
    requires
        len > 0 ==> start + (len - 1) * step <= usize::MAX,
    ensures
        r@ == range_seg(len as int, start as int, step as int, present),
{
    let mut r: Vec<Option<usize>> = Vec::new();
    let mut k: usize = 0;
    let mut cur: usize = start;
    while k < len
        invariant
            k <= len,
            len > 0 ==> start + (len - 1) * step <= usize::MAX,
            k < len ==> cur == start + k * step,
            r@.len() == k,
            forall|j: int|
                0 <= j < k ==> #[trigger] r@[j] == (if present {
                    Some((start + j * step) as usize)
                } else {
                    None
                }),
        decreases len - k,
    {
        proof {
            assert(k * step <= (len - 1) * step) by (nonlinear_arith)
                requires
                    k <= len - 1,
            ;
            if k + 1 < len {
                assert((k + 1) * step == k * step + step) by (nonlinear_arith);
                assert((k + 1) * step <= (len - 1) * step) by (nonlinear_arith)
                    requires
                        k + 1 <= len - 1,
                ;
            }
        }
        if present {
            r.push(Some(cur));
        } else {
            r.push(None);
        }
        if k + 1 < len {
            cur = cur + step;
        }
        k = k + 1;
    }
    assert(r@ =~= range_seg(len as int, start as int, step as int, present));
    r
}

/// All cells of a `w` by `h` layer in row-major order.
pub open spec fn main_seg(w: int, h: int) -> Seq<Option<usize>> {
    range_seg(w * h, 0, 1, true)
}

/// The corner cells of a layer in row-major order, each listed once.
pub open spec fn corner_seg(w: int, h: int) -> Seq<Option<usize>> {
    seq![Some(0usize)] + (if w >= 2 {
        seq![Some((w - 1) as usize)]
    } else {
        Seq::empty()
    }) + (if h >= 2 {
        seq![Some(((h - 1) * w) as usize)]
    } else {
        Seq::empty()
    }) + (if w >= 2 && h >= 2 {
        seq![Some(((h - 1) * w + w - 1) as usize)]
    } else {
        Seq::empty()
    })
}

/// The top row without its corners.
pub open spec fn top_seg(w: int, h: int) -> Seq<Option<usize>> {
    range_seg(if w > 2 { w - 2 } else { 0 }, 1, 1, true)
}

/// The bottom row without its corners; absent for a layer of one row.
pub open spec fn bottom_seg(w: int, h: int) -> Seq<Option<usize>> {
    range_seg(if w > 2 { w - 2 } else { 0 }, (h - 1) * w + 1, 1, h >= 2)
}

/// The left column without its corners.
pub open spec fn left_seg(w: int, h: int) -> Seq<Option<usize>> {
    range_seg(if h > 2 { h - 2 } else { 0 }, w, w, true)
}

/// The right column without its corners; absent for a layer of one column.
pub open spec fn right_seg(w: int, h: int) -> Seq<Option<usize>> {
    range_seg(if h > 2 { h - 2 } else { 0 }, 2 * w - 1, w, w >= 2)
}

/// Number of drawn entries of a whole segment.
pub open spec fn seg_total(cells: Seq<(u8, u8)>, seg: Seq<Option<usize>>) -> int {
    seg_count(cells, seg, seg.len() as int)
}

/// The kill tile the game layer gets at the origin.
pub open spec fn kill_tiles(is_game: bool) -> Seq<SGraphicTile> {
    if is_game {
        seq![added_tile(0, 0, false)]
    } else {
        Seq::empty()
    }
}

pub open spec fn kill_tex(is_game: bool) -> Seq<SGraphicTileTexureCoords> {
    if is_game {
        seq![added_tex(TILE_DEATH, 0, false)]
    } else {
        Seq::empty()
    }
}

/// Number of quads before the kill tile, the corners, and each border.
pub open spec fn base_kill(cells: Seq<(u8, u8)>, w: int, h: int) -> int {
    seg_total(cells, main_seg(w, h))
}

pub open spec fn base_corners(cells: Seq<(u8, u8)>, w: int, h: int, is_game: bool) -> int {
    base_kill(cells, w, h) + if is_game { 1int } else { 0int }
}

pub open spec fn base_top(cells: Seq<(u8, u8)>, w: int, h: int, is_game: bool) -> int {
    base_corners(cells, w, h, is_game) + seg_total(cells, corner_seg(w, h))
}

pub open spec fn base_bottom(cells: Seq<(u8, u8)>, w: int, h: int, is_game: bool) -> int {
    base_top(cells, w, h, is_game) + seg_total(cells, top_seg(w, h))
}

pub open spec fn base_left(cells: Seq<(u8, u8)>, w: int, h: int, is_game: bool) -> int {
    base_bottom(cells, w, h, is_game) + seg_total(cells, bottom_seg(w, h))
}

pub open spec fn base_right(cells: Seq<(u8, u8)>, w: int, h: int, is_game: bool) -> int {
    base_left(cells, w, h, is_game) + seg_total(cells, left_seg(w, h))
}

/// The full quad list of a prepared tile layer.
#[verifier::opaque]
pub open spec fn prepared_tiles(
    cells: Seq<(u8, u8)>,
    w: int,
    h: int,
    is_game: bool,
    speedup: bool,
) -> Seq<SGraphicTile> {
    seg_tiles(cells, w, main_seg(w, h), speedup) + kill_tiles(is_game) + seg_tiles(
        cells,
        w,
        corner_seg(w, h),
        speedup,
    ) + seg_tiles(cells, w, top_seg(w, h), speedup) + seg_tiles(cells, w, bottom_seg(w, h), speedup)
        + seg_tiles(cells, w, left_seg(w, h), speedup) + seg_tiles(
        cells,
        w,
        right_seg(w, h),
        speedup,
    )
}

/// The texture coordinates of the full quad list.
#[verifier::opaque]
pub open spec fn prepared_tex(
    cells: Seq<(u8, u8)>,
    w: int,
    h: int,
    is_game: bool,
    speedup: bool,
) -> Seq<SGraphicTileTexureCoords> {
    seg_tex(cells, main_seg(w, h), speedup) + kill_tex(is_game) + seg_tex(
        cells,
        corner_seg(w, h),
        speedup,
    ) + seg_tex(cells, top_seg(w, h), speedup) + seg_tex(cells, bottom_seg(w, h), speedup)
        + seg_tex(cells, left_seg(w, h), speedup) + seg_tex(cells, right_seg(w, h), speedup)
}

/// The visual of a corner that may be absent: an absent corner points at
/// the start of the corner quads and is not drawn.
pub open spec fn corner_visual_ok(
    v: STileVisual,
    present: bool,
    cells: Seq<(u8, u8)>,
    w: int,
    h: int,
    pos: int,
    base: int,
) -> bool {
    if present {
        v.is(
            TILE_INDEX_BYTES * (base + seg_count(cells, corner_seg(w, h), pos)),
            entry_drawn(cells, corner_seg(w, h)[pos]),
        )
    } else {
        v.is(TILE_INDEX_BYTES * base, false)
    }
}

/// The visuals of a prepared tile layer point at the quads of their cells.
#[verifier::opaque]
pub open spec fn prepared_visuals(
    v: STileLayerVisualsBase,
    cells: Seq<(u8, u8)>,
    w: int,
    h: int,
    is_game: bool,
) -> bool {
    &&& v.width == w
    &&& v.height == h
    &&& visuals_match(v.tiles_of_layer@, cells, main_seg(w, h), 0)
    &&& is_game ==> v.border_kill_tile.is(TILE_INDEX_BYTES * base_kill(cells, w, h), true)
    &&& !is_game ==> v.border_kill_tile.raw() == 0
    &&& corner_visual_ok(v.border_top_left, true, cells, w, h, 0, base_corners(cells, w, h, is_game))
    &&& corner_visual_ok(
        v.border_top_right,
        w >= 2,
        cells,
        w,
        h,
        1,
        base_corners(cells, w, h, is_game),
    )
    &&& corner_visual_ok(
        v.border_bottom_left,
        h >= 2,
        cells,
        w,
        h,
        if w >= 2 { 2 } else { 1 },
        base_corners(cells, w, h, is_game),
    )
    &&& corner_visual_ok(
        v.border_bottom_right,
        w >= 2 && h >= 2,
        cells,
        w,
        h,
        3,
        base_corners(cells, w, h, is_game),
    )
    &&& visuals_match(v.border_top@, cells, top_seg(w, h), base_top(cells, w, h, is_game))
    &&& visuals_match(v.border_bottom@, cells, bottom_seg(w, h), base_bottom(cells, w, h, is_game))
    &&& visuals_match(v.border_left@, cells, left_seg(w, h), base_left(cells, w, h, is_game))
    &&& visuals_match(v.border_right@, cells, right_seg(w, h), base_right(cells, w, h, is_game))
}

/// A tile layer ready for upload.
pub struct TileLayerUpload {
    pub visuals: STileLayerVisualsBase,
    pub tiles: Vec<SGraphicTile>,
    pub tex_coords: Vec<SGraphicTileTexureCoords>,
    pub textured: bool,
    /// Number of indices the layer's quads need: six per quad.
    pub indices_count: usize,
}

/// Whether a layer gets texture coordinates: it has an image, or it is an
/// entity layer (drawn with the entities texture).
pub open spec fn layer_textured(image: i32, kind: TileLayerKind) -> bool {
    image != -1 || kind.is_entity()
}

/// The quad of a speedup layer's base overlay is drawn shrunk.
pub open spec fn layer_speedup(kind: TileLayerKind, overlay: u32) -> bool {
    kind.is_speedup && overlay == 0
}

pub fn make_corner_seg(w: usize, h: usize) -> (r: Vec<Option<usize>>)
    requires
        0 < w,
        0 < h,
        w * h <= usize::MAX,
    ensures
        r@ == corner_seg(w as int, h as int),
{
    proof {
        assert((h - 1) * w + w - 1 < w * h) by (nonlinear_arith)
            requires
                0 < w,
                0 < h,
        ;
        assert((h - 1) * w <= w * h) by (nonlinear_arith)
            requires
                0 < w,
                0 < h,
        ;
    }
    let mut r: Vec<Option<usize>> = Vec::new();
    r.push(Some(0));
    let ghost s1 = r@;
    if w >= 2 {
        r.push(Some(w - 1));
    }
    let ghost s2 = r@;
    if h >= 2 {
        r.push(Some((h - 1) * w));
    }
    let ghost s3 = r@;
    if w >= 2 && h >= 2 {
        r.push(Some((h - 1) * w + w - 1));
    }
    proof {
        let a: Seq<Option<usize>> = if w >= 2 {
            seq![Some((w - 1) as usize)]
        } else {
            Seq::empty()
        };
        let b: Seq<Option<usize>> = if h >= 2 {
            seq![Some(((h - 1) * w) as usize)]
        } else {
            Seq::empty()
        };
        let c: Seq<Option<usize>> = if w >= 2 && h >= 2 {
            seq![Some(((h - 1) * w + w - 1) as usize)]
        } else {
            Seq::empty()
        };
        assert(s1 =~= seq![Some(0usize)]);
        assert(s2 =~= s1 + a);
        assert(s3 =~= s2 + b);
        assert(r@ =~= s3 + c);
    }
    r
}

/// All segments of a valid layer stay inside it and the quad list stays
/// within the offset range.
pub proof fn lemma_segments_in_layer(w: int, h: int)
    requires
        0 < w,
        0 < h,
        fits_upload(w, h),
    ensures
        seg_in_layer(main_seg(w, h), w * h),
        seg_in_layer(corner_seg(w, h), w * h),
        seg_in_layer(top_seg(w, h), w * h),
        seg_in_layer(bottom_seg(w, h), w * h),
        seg_in_layer(left_seg(w, h), w * h),
        seg_in_layer(right_seg(w, h), w * h),
        corner_seg(w, h).len() <= 4,
        (w * h + 1 + corner_seg(w, h).len() + top_seg(w, h).len() + bottom_seg(w, h).len()
            + left_seg(w, h).len() + right_seg(w, h).len()) * TILE_INDEX_BYTES <= u32::MAX,
        w * h + 2 * w + 2 * h + 5 <= u32::MAX,
        0 <= (h - 1) * w < w * h,
        h > 2 ==> w + (h - 2 - 1) * w < w * h,
        h > 2 ==> 2 * w - 1 + (h - 2 - 1) * w < w * h,
{
    assert(h > 2 ==> w + (h - 2 - 1) * w < w * h && 2 * w - 1 + (h - 2 - 1) * w < w * h)
        by (nonlinear_arith)
        requires
            0 < w,
            0 < h,
    ;
    assert(0 <= (h - 1) * w < w * h) by (nonlinear_arith)
        requires
            0 < w,
            0 < h,
    ;
    assert(w <= w * h && h <= w * h) by (nonlinear_arith)
        requires
            0 < w,
            0 < h,
    ;
    assert((h - 1) * w + w - 1 < w * h && (h - 1) * w >= 0) by (nonlinear_arith)
        requires
            0 < w,
            0 < h,
    ;
    let n = w * h;
    assert forall|k: int| 0 <= k < main_seg(w, h).len() implies (#[trigger] main_seg(w, h)[k]
        matches Some(c) ==> c < n) by {
        assert(k * 1 == k);
    }
    assert forall|k: int| 0 <= k < top_seg(w, h).len() implies (#[trigger] top_seg(w, h)[k]
        matches Some(c) ==> c < n) by {
        assert(k * 1 == k);
    }
    assert forall|k: int| 0 <= k < bottom_seg(w, h).len() implies (#[trigger] bottom_seg(w, h)[k]
        matches Some(c) ==> c < n) by {
        assert(k * 1 == k);
        if h >= 2 {
            assert((h - 1) * w + 1 + k < w * h) by (nonlinear_arith)
                requires
                    0 <= k < w - 2,
                    h >= 2,
                    w > 0,
            ;
        }
    }
    assert forall|k: int| 0 <= k < left_seg(w, h).len() implies (#[trigger] left_seg(w, h)[k]
        matches Some(c) ==> c < n) by {
        assert(w + k * w < w * h && 0 <= k * w) by (nonlinear_arith)
            requires
                0 <= k < h - 2,
                w > 0,
        ;
    }
    assert forall|k: int| 0 <= k < right_seg(w, h).len() implies (#[trigger] right_seg(w, h)[k]
        matches Some(c) ==> c < n) by {
        if w >= 2 {
            assert(2 * w - 1 + k * w < w * h && 0 <= k * w) by (nonlinear_arith)
                requires
                    0 <= k < h - 2,
                    w > 0,
            ;
        }
    }
}

/// Appends the quads of the four corners and returns the corner visuals
/// (top-left, top-right, bottom-left, bottom-right).
pub fn push_corners(
    cells: &Vec<(u8, u8)>,
    w: usize,
    h: usize,
    speedup: bool,
    do_texture_coords: bool,
    tmp_tiles: &mut Vec<SGraphicTile>,
    tmp_tex: &mut Vec<SGraphicTileTexureCoords>,
) -> (r: (STileVisual, STileVisual, STileVisual, STileVisual))
    requires
        0 < w,
        0 < h,
        cells@.len() == w * h,
        fits_upload(w as int, h as int),
        (old(tmp_tiles)@.len() + 4) * TILE_INDEX_BYTES <= u32::MAX,
    ensures
        final(tmp_tiles)@ == old(tmp_tiles)@ + seg_tiles(
            cells@,
            w as int,
            corner_seg(w as int, h as int),
            speedup,
        ),
        do_texture_coords ==> final(tmp_tex)@ == old(tmp_tex)@ + seg_tex(
            cells@,
            corner_seg(w as int, h as int),
            speedup,
        ),
        !do_texture_coords ==> final(tmp_tex)@ == old(tmp_tex)@,
        ({
            let base = old(tmp_tiles)@.len() as int;
            let (wi, hi) = (w as int, h as int);
            &&& corner_visual_ok(r.0, true, cells@, wi, hi, 0, base)
            &&& corner_visual_ok(r.1, w >= 2, cells@, wi, hi, 1, base)
            &&& corner_visual_ok(r.2, h >= 2, cells@, wi, hi, if w >= 2 { 2 } else { 1 }, base)
            &&& corner_visual_ok(r.3, w >= 2 && h >= 2, cells@, wi, hi, 3, base)
        }),
{
    proof {
        lemma_segments_in_layer(w as int, h as int);
    }
    let corner = make_corner_seg(w, h);
    let base_c = tmp_tiles.len();
    let cv = push_segment(&cells, w, h, &corner, speedup, do_texture_coords, tmp_tiles, tmp_tex);
    let mut absent = STileVisual::empty();
    absent.set_index_buffer_offset((base_c * TILE_INDEX_BYTES) as u32);
    let tl = cv[0];
    let tr = if w >= 2 {
        cv[1]
    } else {
        absent
    };
    let bl = if h >= 2 {
        if w >= 2 {
            cv[2]
        } else {
            cv[1]
        }
    } else {
        absent
    };
    let br = if w >= 2 && h >= 2 {
        cv[3]
    } else {
        absent
    };
    (tl, tr, bl, br)
}

/// Appends the quads of the four borders (top, bottom, left, right, each
/// without corners) and returns their visuals.
pub fn push_borders(
    cells: &Vec<(u8, u8)>,
    w: usize,
    h: usize,
    speedup: bool,
    do_texture_coords: bool,
    tmp_tiles: &mut Vec<SGraphicTile>,
    tmp_tex: &mut Vec<SGraphicTileTexureCoords>,
) -> (r: (Vec<STileVisual>, Vec<STileVisual>, Vec<STileVisual>, Vec<STileVisual>))
    requires
        0 < w,
        0 < h,
        cells@.len() == w * h,
        fits_upload(w as int, h as int),
        old(tmp_tiles)@.len() <= w * h + 5,
    ensures
        ({
            let (wi, hi) = (w as int, h as int);
            let cs = cells@;
            let b0 = old(tmp_tiles)@.len() as int;
            let b1 = b0 + seg_total(cs, top_seg(wi, hi));
            let b2 = b1 + seg_total(cs, bottom_seg(wi, hi));
            let b3 = b2 + seg_total(cs, left_seg(wi, hi));
            &&& final(tmp_tiles)@ == old(tmp_tiles)@ + seg_tiles(cs, wi, top_seg(wi, hi), speedup)
                + seg_tiles(cs, wi, bottom_seg(wi, hi), speedup) + seg_tiles(
                cs,
                wi,
                left_seg(wi, hi),
                speedup,
            ) + seg_tiles(cs, wi, right_seg(wi, hi), speedup)
            &&& do_texture_coords ==> final(tmp_tex)@ == old(tmp_tex)@ + seg_tex(
                cs,
                top_seg(wi, hi),
                speedup,
            ) + seg_tex(cs, bottom_seg(wi, hi), speedup) + seg_tex(cs, left_seg(wi, hi), speedup)
                + seg_tex(cs, right_seg(wi, hi), speedup)
            &&& !do_texture_coords ==> final(tmp_tex)@ == old(tmp_tex)@
            &&& visuals_match(r.0@, cs, top_seg(wi, hi), b0)
            &&& visuals_match(r.1@, cs, bottom_seg(wi, hi), b1)
            &&& visuals_match(r.2@, cs, left_seg(wi, hi), b2)
            &&& visuals_match(r.3@, cs, right_seg(wi, hi), b3)
        }),
{
    let ghost wi = w as int;
    let ghost hi = h as int;
    let ghost cs = cells@;
    proof {
        lemma_segments_in_layer(wi, hi);
    }
    let row_len: usize = if w > 2 {
        w - 2
    } else {
        0
    };
    let col_len: usize = if h > 2 {
        h - 2
    } else {
        0
    };
    let ghost t0 = tmp_tiles@;
    let ghost x0 = tmp_tex@;

    let top = make_range_seg(row_len, 1, 1, true);
    proof {
        lemma_seg_len(cs, wi, top@, speedup);
    }
    let vt = push_segment(cells, w, h, &top, speedup, do_texture_coords, tmp_tiles, tmp_tex);
    let ghost t1 = tmp_tiles@;
    let ghost x1 = tmp_tex@;

    let bottom = make_range_seg(row_len, (h - 1) * w + 1, 1, h >= 2);
    proof {
        lemma_seg_len(cs, wi, bottom@, speedup);
    }
    let vb = push_segment(cells, w, h, &bottom, speedup, do_texture_coords, tmp_tiles, tmp_tex);
    let ghost t2 = tmp_tiles@;
    let ghost x2 = tmp_tex@;

    let left = make_range_seg(col_len, w, w, true);
    proof {
        lemma_seg_len(cs, wi, left@, speedup);
    }
    let vl = push_segment(cells, w, h, &left, speedup, do_texture_coords, tmp_tiles, tmp_tex);

    let right = make_range_seg(col_len, 2 * w - 1, w, w >= 2);
    proof {
        lemma_seg_len(cs, wi, right@, speedup);
    }
    let vr = push_segment(cells, w, h, &right, speedup, do_texture_coords, tmp_tiles, tmp_tex);
    (vt, vb, vl, vr)
}

/// Appends the quads of all cells in row-major order, then the kill tile of
/// the game layer; returns the cell visuals and the kill-tile visual.
pub fn push_main_and_kill(
    cells: &Vec<(u8, u8)>,
    w: usize,
    h: usize,
    is_game: bool,
    speedup: bool,
    do_texture_coords: bool,
    tmp_tiles: &mut Vec<SGraphicTile>,
    tmp_tex: &mut Vec<SGraphicTileTexureCoords>,
) -> (r: (Vec<STileVisual>, STileVisual))
    requires
        0 < w,
        0 < h,
        cells@.len() == w * h,
        fits_upload(w as int, h as int),
        old(tmp_tiles)@.len() == 0,
        old(tmp_tex)@.len() == 0,
    ensures
        ({
            let (wi, hi) = (w as int, h as int);
            let cs = cells@;
            &&& final(tmp_tiles)@ == seg_tiles(cs, wi, main_seg(wi, hi), speedup) + kill_tiles(
                is_game,
            )
            &&& do_texture_coords ==> final(tmp_tex)@ == seg_tex(cs, main_seg(wi, hi), speedup)
                + kill_tex(is_game)
            &&& !do_texture_coords ==> final(tmp_tex)@.len() == 0
            &&& visuals_match(r.0@, cs, main_seg(wi, hi), 0)
            &&& is_game ==> r.1.is(TILE_INDEX_BYTES * base_kill(cs, wi, hi), true)
            &&& !is_game ==> r.1.raw() == 0
            &&& final(tmp_tiles)@.len() == base_corners(cs, wi, hi, is_game)
            &&& final(tmp_tiles)@.len() <= w * h + 1
        }),
{
    let ghost wi = w as int;
    let ghost hi = h as int;
    let ghost cs = cells@;
    proof {
        lemma_segments_in_layer(wi, hi);
    }
    let main = make_range_seg(w * h, 0, 1, true);
    proof {
        lemma_seg_len(cs, wi, main@, speedup);
    }
    let vis = push_segment(cells, w, h, &main, speedup, do_texture_coords, tmp_tiles, tmp_tex);
    let ghost t_main = tmp_tiles@;
    let ghost x_main = tmp_tex@;
    let mut kill = STileVisual::empty();
    if is_game {
        let off = (tmp_tiles.len() * TILE_INDEX_BYTES) as u32;
        kill.set_index_buffer_offset(off);
        if add_tile(tmp_tiles, tmp_tex, TILE_DEATH, 0, 0, 0, do_texture_coords, false) {
            kill.draw(true);
        }
    }
    proof {
        assert(t_main =~= seg_tiles(cs, wi, main_seg(wi, hi), speedup));
        assert(tmp_tiles@ =~= t_main + kill_tiles(is_game));
        assert(do_texture_coords ==> x_main =~= seg_tex(cs, main_seg(wi, hi), speedup));
        assert(do_texture_coords ==> tmp_tex@ =~= x_main + kill_tex(is_game));
    }
    (vis, kill)
}

/// Prepares one tile layer (or one overlay of an entity layer) for upload.
/// Returns nothing when the layer has no valid size or no tile to draw.
pub fn prepare_tile_layer(
    width: u32,
    height: u32,
    image: i32,
    kind: TileLayerKind,
    tiles: &Vec<MapTile>,
    detail: &MapTileLayerDetail,
    cur_overlay: u32,
) -> (r: Option<TileLayerUpload>)
    requires
        STileLayerVisualsBase::valid_size(width, height) ==> {
            &&& fits_upload(width as int, height as int)
            &&& sources_cover(kind, tiles@, *detail, width * height)
        },
    ensures
        ({
            let w = width as int;
            let h = height as int;
            let cells = layer_cells(kind, tiles@, *detail, w * h, cur_overlay);
            let sp = layer_speedup(kind, cur_overlay);
            &&& r is None <==> (!STileLayerVisualsBase::valid_size(width, height)
                || prepared_tiles(cells, w, h, kind.is_game, sp).len() == 0)
            &&& r matches Some(u) ==> {
                &&& u.tiles@ == prepared_tiles(cells, w, h, kind.is_game, sp)
                &&& u.textured == layer_textured(image, kind)
                &&& u.textured ==> u.tex_coords@ == prepared_tex(cells, w, h, kind.is_game, sp)
                &&& !u.textured ==> u.tex_coords@.len() == 0
                &&& u.indices_count == 6 * u.tiles@.len()
                &&& u.visuals.is_textured == u.textured
                &&& prepared_visuals(u.visuals, cells, w, h, kind.is_game)
            }
        }),
{
    let mut visuals = STileLayerVisualsBase::new();
    if !visuals.init(width, height) {
        return None;
    }
    let do_tex = image != -1 || kind.entity();
    let w = width as usize;
    let h = height as usize;
    let n = w * h;
    let ghost wi = w as int;
    let ghost hi = h as int;
    proof {
        lemma_segments_in_layer(wi, hi);
    }
    let cells = collect_cells(&kind, tiles, detail, n, cur_overlay);
    let ghost cs = cells@;
    let speedup = kind.is_speedup && cur_overlay == 0;
    let mut tmp_tiles: Vec<SGraphicTile> = Vec::new();
    let mut tmp_tex: Vec<SGraphicTileTexureCoords> = Vec::new();

    let (vm, vk) = push_main_and_kill(
        &cells,
        w,
        h,
        kind.is_game,
        speedup,
        do_tex,
        &mut tmp_tiles,
        &mut tmp_tex,
    );
    let ghost t1 = tmp_tiles@;
    let ghost x1 = tmp_tex@;
    let (tl, tr, bl, br) = push_corners(&cells, w, h, speedup, do_tex, &mut tmp_tiles, &mut tmp_tex);
    let ghost t2 = tmp_tiles@;
    let ghost x2 = tmp_tex@;
    proof {
        lemma_seg_len(cs, wi, corner_seg(wi, hi), speedup);
    }
    let (vt, vb, vl, vr) = push_borders(&cells, w, h, speedup, do_tex, &mut tmp_tiles, &mut tmp_tex);
    let visuals = STileLayerVisualsBase {
        tiles_of_layer: vm,
        border_top_left: tl,
        border_top_right: tr,
        border_bottom_right: br,
        border_bottom_left: bl,
        border_kill_tile: vk,
        border_top: vt,
        border_left: vl,
        border_right: vr,
        border_bottom: vb,
        width,
        height,
        is_textured: do_tex,
    };
    proof {
        assert(cs == layer_cells(kind, tiles@, *detail, wi * hi, cur_overlay));
        lemma_seg_len(cs, wi, top_seg(wi, hi), speedup);
        lemma_seg_len(cs, wi, bottom_seg(wi, hi), speedup);
        lemma_seg_len(cs, wi, left_seg(wi, hi), speedup);
        lemma_seg_len(cs, wi, right_seg(wi, hi), speedup);
        lemma_tiles_len_bound(cs, wi, hi, speedup, tmp_tiles@.len() as int, t2.len() as int);
        assert(tmp_tiles@ == prepared_tiles(cs, wi, hi, kind.is_game, speedup)) by {
            reveal(prepared_tiles);
        }
        assert(do_tex ==> tmp_tex@ == prepared_tex(cs, wi, hi, kind.is_game, speedup)) by {
            reveal(prepared_tex);
        }
        assert(prepared_visuals(visuals, cs, wi, hi, kind.is_game)) by {
            reveal(prepared_visuals);
        }
    }
    if tmp_tiles.len() == 0 {
        return None;
    }
    let indices_count = tmp_tiles.len() * 6;
    Some(
        TileLayerUpload {
            visuals,
            tiles: tmp_tiles,
            tex_coords: tmp_tex,
            textured: do_tex,
            indices_count,
        },
    )
}

/// The quad list of a layer that fits the upload stays short enough to
/// count its indices.
pub proof fn lemma_tiles_len_bound(
    cells: Seq<(u8, u8)>,
    w: int,
    h: int,
    speedup: bool,
    len: int,
    before_borders: int,
)
    requires
        0 < w,
        0 < h,
        fits_upload(w, h),
        before_borders <= w * h + 5,
        len == before_borders + seg_total(cells, top_seg(w, h)) + seg_total(cells, bottom_seg(w, h))
            + seg_total(cells, left_seg(w, h)) + seg_total(cells, right_seg(w, h)),
    ensures
        len * 6 <= usize::MAX,
{
    lemma_segments_in_layer(w, h);
    lemma_seg_len(cells, w, top_seg(w, h), speedup);
    lemma_seg_len(cells, w, bottom_seg(w, h), speedup);
    lemma_seg_len(cells, w, left_seg(w, h), speedup);
    lemma_seg_len(cells, w, right_seg(w, h), speedup);
}

} // verus!

//! Properties that relate the preparation of a tile layer to the way the
//! renderer reads the prepared visuals back.

use vstd::prelude::*;
use crate::map_render::{offsets_monotone, span_indices, INDEX_BYTES, QUAD_INDICES};
use crate::tile_geometry::added_tile;
use crate::tile_layer::{
    entry_drawn, lemma_seg_count_mono, lemma_seg_count_prefix, lemma_seg_len, main_seg,
    prepared_tiles, prepared_visuals, seg_count, seg_tiles, visuals_match, TILE_INDEX_BYTES,
};
use crate::tile_visual::STileLayerVisualsBase;

verus! {

/// In any segment, the quad of a drawn entry sits at the number of drawn
/// entries before it.
pub proof fn lemma_seg_tiles_index(
    cells: Seq<(u8, u8)>,
    w: int,
    seg: Seq<Option<usize>>,
    sp: bool,
    k: int,
)
    requires
        0 <= k < seg.len(),
        entry_drawn(cells, seg[k]),
    ensures
        seg_count(cells, seg, k) < seg_tiles(cells, w, seg, sp).len(),
        seg[k] is Some,
        ({
            let c = seg[k]->0;
            seg_tiles(cells, w, seg, sp)[seg_count(cells, seg, k)] == added_tile(
                (c as int) % w,
                (c as int) / w,
                sp,
            )
        }),
    decreases seg.len(),
{
    let p = seg.drop_last();
    lemma_seg_len(cells, w, p, sp);
    lemma_seg_len(cells, w, seg, sp);
    if k == seg.len() - 1 {
        lemma_seg_count_prefix(cells, seg, p, k);
        assert(seg.last() == seg[k]);
        let c = seg[k]->0;
        assert(seg_tiles(cells, w, seg, sp) == seg_tiles(cells, w, p, sp).push(
            added_tile((c as int) % w, (c as int) / w, sp),
        ));
        assert(seg_count(cells, seg, k) == seg_tiles(cells, w, p, sp).len());
        assert(seg_tiles(cells, w, seg, sp)[seg_count(cells, seg, k)] == added_tile(
            (c as int) % w,
            (c as int) / w,
            sp,
        ));
    } else {
        assert(p[k] == seg[k]);
        let prev = seg_tiles(cells, w, p, sp);
        lemma_seg_tiles_index(cells, w, p, sp, k);
        lemma_seg_count_prefix(cells, seg, p, k);
        let c = p[k]->0;
        let i = seg_count(cells, p, k);
        lemma_seg_count_mono(cells, p, 0, k);
        assert(prev[i] == added_tile((c as int) % w, (c as int) / w, sp));
        match seg.last() {
            Some(c2) => {
                if cells[c2 as int].0 > 0 {
                    let x = added_tile((c2 as int) % w, (c2 as int) / w, sp);
                    assert(seg_tiles(cells, w, seg, sp) == prev.push(x));
                    assert(prev.push(x)[i] == prev[i]);
                } else {
                    assert(seg_tiles(cells, w, seg, sp) == prev);
                }
            },
            None => {
                assert(seg_tiles(cells, w, seg, sp) == prev);
            },
        }
    }
}

/// The cell visuals of a prepared layer have non-decreasing offsets, so the
/// renderer can always draw the span between two of them.
pub proof fn law_prepared_offsets_monotone(
    cells: Seq<(u8, u8)>,
    w: int,
    h: int,
    is_game: bool,
    vis: STileLayerVisualsBase,
)
    requires
        prepared_visuals(vis, cells, w, h, is_game),
        0 < w,
        0 < h,
    ensures
        offsets_monotone(vis.tiles_of_layer@),
{
    reveal(prepared_visuals);
    let s = main_seg(w, h);
    let t = vis.tiles_of_layer@;
    assert forall|i: int, j: int| 0 <= i <= j < t.len() implies t[i].offset() <= t[j].offset() by {
        lemma_seg_count_mono(cells, s, i, j);
        assert(t[i].is(TILE_INDEX_BYTES * (0 + seg_count(cells, s, i)), entry_drawn(cells, s[i])));
        assert(t[j].is(TILE_INDEX_BYTES * (0 + seg_count(cells, s, j)), entry_drawn(cells, s[j])));
    }
}

/// What the renderer draws for the cells `x0..=x1` of row `y` of a prepared
/// layer: it starts at the quad of the first drawn cell at or after `x0`,
/// and its index count is six per drawn cell in the span.
pub proof fn law_row_span_draws_drawn_cells(
    cells: Seq<(u8, u8)>,
    w: int,
    h: int,
    is_game: bool,
    vis: STileLayerVisualsBase,
    y: int,
    x0: int,
    x1: int,
)
    requires
        prepared_visuals(vis, cells, w, h, is_game),
        cells.len() == w * h,
        0 < w,
        0 < h,
        0 <= y < h,
        0 <= x0 <= x1 < w,
    ensures
        ({
            let s = main_seg(w, h);
            let t = vis.tiles_of_layer@;
            let i0 = y * w + x0;
            let i1 = y * w + x1;
            &&& 0 <= i0 <= i1 < t.len()
            &&& t[i0].offset() == TILE_INDEX_BYTES * seg_count(cells, s, i0)
            &&& span_indices(t, i0, i1) == QUAD_INDICES * (seg_count(cells, s, i1 + 1) - seg_count(
                cells,
                s,
                i0,
            ))
        }),
{
    reveal(prepared_visuals);
    let s = main_seg(w, h);
    let t = vis.tiles_of_layer@;
    let i0 = y * w + x0;
    let i1 = y * w + x1;
    assert(0 <= y * w + x0 <= y * w + x1 < w * h) by (nonlinear_arith)
        requires
            0 <= y < h,
            0 <= x0 <= x1 < w,
    ;
    assert(t[i0].is(TILE_INDEX_BYTES * (0 + seg_count(cells, s, i0)), entry_drawn(cells, s[i0])));
    assert(t[i1].is(TILE_INDEX_BYTES * (0 + seg_count(cells, s, i1)), entry_drawn(cells, s[i1])));
    lemma_seg_count_mono(cells, s, i0, i1);
    let d = seg_count(cells, s, i1) - seg_count(cells, s, i0);
    assert((24 * seg_count(cells, s, i1) - 24 * seg_count(cells, s, i0)) / 4 == 6 * d) by {
        assert(24 * seg_count(cells, s, i1) - 24 * seg_count(cells, s, i0) == 4 * (6 * d));
    }
}

/// Every drawn cell of a prepared layer has a visual that is marked drawn
/// and points at the cell's own quad in the uploaded quad list.
pub proof fn law_cell_visual_points_at_its_quad(
    cells: Seq<(u8, u8)>,
    w: int,
    h: int,
    is_game: bool,
    sp: bool,
    vis: STileLayerVisualsBase,
    c: int,
)
    requires
        prepared_visuals(vis, cells, w, h, is_game),
        cells.len() == w * h,
        0 < w,
        0 < h,
        0 <= c < w * h,
        w * h <= usize::MAX,
        cells[c].0 > 0,
    ensures
        ({
            let v = vis.tiles_of_layer@[c];
            let q = prepared_tiles(cells, w, h, is_game, sp);
            &&& v.draws()
            &&& (v.offset() as int) % (TILE_INDEX_BYTES as int) == 0
            &&& (v.offset() as int) / (TILE_INDEX_BYTES as int) < q.len()
            &&& q[(v.offset() as int) / (TILE_INDEX_BYTES as int)] == added_tile(c % w, c / w, sp)
        }),
{
    reveal(prepared_visuals);
    reveal(prepared_tiles);
    let s = main_seg(w, h);
    assert(c * 1 == c);
    assert(s[c] == Some(c as usize));
    lemma_seg_tiles_index(cells, w, s, sp, c);
    let k = seg_count(cells, s, c);
    let v = vis.tiles_of_layer@[c];
    assert(v.is(TILE_INDEX_BYTES * (0 + k), entry_drawn(cells, s[c])));
    assert((24 * k) / 24 == k && (24 * k) % 24 == 0) by (nonlinear_arith);
}

} // verus!

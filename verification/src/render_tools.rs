//! The tiles a tile map draws without buffered visuals: which cells of the
//! canvas are visited, which of them are drawn, and with which part of the
//! tile set.
use crate::tile_geometry::{has_flag, TILE_FLAG_OPAQUE};
use crate::tile_layer::MapTile;
use vstd::prelude::*;

verus! {

/// Which tiles of a layer a render pass draws.
#[derive(Copy, Clone, PartialEq, Eq, Structural)]
pub enum LayerRenderFlag {
    /// Tiles that are opaque (the tile says so and the color is opaque).
    Opaque,
    /// All other tiles.
    Transparent,
}

impl LayerRenderFlag {
    pub open spec fn spec_bits(self) -> i32 {
        match self {
            LayerRenderFlag::Opaque => 1,
            LayerRenderFlag::Transparent => 2,
        }
    }

    /// The flag's bit in a render-flag set.
    pub fn bits(&self) -> (r: i32)
        ensures
            r == self.spec_bits(),
    {
        match self {
            LayerRenderFlag::Opaque => 1,
            LayerRenderFlag::Transparent => 2,
        }
    }
}

/// How a tile map treats cells outside the layer.
#[derive(Copy, Clone, PartialEq, Eq, Structural)]
pub enum TileRenderFlag {
    /// Outside cells repeat the nearest border cell.
    Extend,
}

impl TileRenderFlag {
    pub open spec fn spec_bits(self) -> i32 {
        4
    }

    pub fn bits(&self) -> (r: i32)
        ensures
            r == self.spec_bits(),
    {
        4
    }
}

/// Immediate-mode rendering helpers.
pub struct RenderTools {}

/// A tile to draw: its cell on the canvas, the tile-set entry (column `tx`
/// and row `ty` of the 16 by 16 tile set) and its flags.
#[derive(Copy, Clone, PartialEq, Eq, Structural)]
pub struct TileMapDraw {
    pub x: i32,
    pub y: i32,
    pub index: u8,
    pub flags: u8,
    pub tx: i32,
    pub ty: i32,
}

pub open spec fn extends(render_flags: i32) -> bool {
    render_flags & 4 != 0
}

pub open spec fn clamp_cell(v: int, n: int) -> int {
    if v < 0 {
        0
    } else if v >= n {
        n - 1
    } else {
        v
    }
}

/// A tile is drawn when it is not empty and the pass takes it: opaque tiles
/// (`color_opaque`: the layer's color is fully opaque) in the opaque pass,
/// all others in the transparent pass.
pub open spec fn tile_drawn(t: MapTile, render_flags: i32, color_opaque: bool) -> bool {
    &&& t.index > 0
    &&& if has_flag(t.flags, TILE_FLAG_OPAQUE) && color_opaque {
        render_flags & 1 != 0
    } else {
        render_flags & 2 != 0
    }
}

/// The layer cell shown at canvas cell `(x, y)`.
pub open spec fn shown_cell(w: int, h: int, x: int, y: int, render_flags: i32) -> int {
    if extends(render_flags) {
        clamp_cell(x, w) + clamp_cell(y, h) * w
    } else {
        x + y * w
    }
}

pub open spec fn visits_layer(w: int, h: int, x: int, y: int, render_flags: i32) -> bool {
    extends(render_flags) || (0 <= x < w && 0 <= y < h)
}

/// The draws of row `y` from column `x` on: a cell's `skip` jumps over the
/// empty cells after it.
pub open spec fn row_draws(
    tiles: Seq<MapTile>,
    w: int,
    h: int,
    y: int,
    x: int,
    end_x: int,
    render_flags: i32,
    color_opaque: bool,
) -> Seq<TileMapDraw>
    decreases if x < end_x { end_x - x } else { 0 },
{
    if x >= end_x || !visits_layer(w, h, x, y, render_flags) {
        Seq::empty()
    } else {
        let t = tiles[shown_cell(w, h, x, y, render_flags)];
        let here = if tile_drawn(t, render_flags, color_opaque) {
            seq![
                TileMapDraw {
                    x: x as i32,
                    y: y as i32,
                    index: t.index,
                    flags: t.flags,
                    tx: (t.index % 16) as i32,
                    ty: (t.index / 16) as i32,
                },
            ]
        } else {
            Seq::empty()
        };
        here + row_draws(tiles, w, h, y, x + t.skip + 1, end_x, render_flags, color_opaque)
    }
}

/// Without `Extend`, the walk of a row must stay on the layer: a row that
/// leaves it is never finished.
pub open spec fn row_finishes(
    tiles: Seq<MapTile>,
    w: int,
    h: int,
    y: int,
    x: int,
    end_x: int,
    render_flags: i32,
) -> bool
    decreases if x < end_x { end_x - x } else { 0 },
{
    if x >= end_x {
        true
    } else if !visits_layer(w, h, x, y, render_flags) {
        false
    } else {
        row_finishes(
            tiles,
            w,
            h,
            y,
            x + tiles[shown_cell(w, h, x, y, render_flags)].skip + 1,
            end_x,
            render_flags,
        )
    }
}

/// The draws of rows `y .. end_y`.
pub open spec fn map_draws(
    tiles: Seq<MapTile>,
    w: int,
    h: int,
    y: int,
    end_y: int,
    start_x: int,
    end_x: int,
    render_flags: i32,
    color_opaque: bool,
) -> Seq<TileMapDraw>
    decreases end_y - y,
{
    if y >= end_y {
        Seq::empty()
    } else {
        row_draws(tiles, w, h, y, start_x, end_x, render_flags, color_opaque) + map_draws(
            tiles,
            w,
            h,
            y + 1,
            end_y,
            start_x,
            end_x,
            render_flags,
            color_opaque,
        )
    }
}

/// The tile map can be walked: the cells it shows exist, and without
/// `Extend` every row stays on the layer.
pub open spec fn tile_map_walkable(
    tiles: Seq<MapTile>,
    w: int,
    h: int,
    start_x: int,
    start_y: int,
    end_x: int,
    end_y: int,
    render_flags: i32,
) -> bool {
    &&& 1 <= w
    &&& 1 <= h
    &&& tiles.len() == w * h
    &&& w * h - 1 <= i32::MAX
    &&& forall|y: int|
        start_y <= y < end_y ==> #[trigger] row_finishes(
            tiles,
            w,
            h,
            y,
            start_x,
            end_x,
            render_flags,
        )
}

proof fn lemma_cell_in_layer(w: int, h: int, mx: int, my: int)
    requires
        1 <= w,
        1 <= h,
        0 <= mx < w,
        0 <= my < h,
    ensures
        0 <= mx + my * w < w * h,
{
    assert(my * w <= (h - 1) * w) by (nonlinear_arith)
        requires
            my <= h - 1,
            w >= 1,
    ;
    assert((h - 1) * w == w * h - w) by (nonlinear_arith);
    assert(0 <= my * w) by (nonlinear_arith)
        requires
            my >= 0,
            w >= 1,
    ;
}

fn row_tile_draws(
    tiles: &Vec<MapTile>,
    w: i32,
    h: i32,
    y: i32,
    start_x: i32,
    end_x: i32,
    render_flags: i32,
    color_opaque: bool,
    out: &mut Vec<TileMapDraw>,
)
    requires
        1 <= w,
        1 <= h,
        tiles@.len() == w * h,
        w * h - 1 <= i32::MAX,
        row_finishes(tiles@, w as int, h as int, y as int, start_x as int, end_x as int, render_flags),
    ensures
        final(out)@ == old(out)@ + row_draws(
            tiles@,
            w as int,
            h as int,
            y as int,
            start_x as int,
            end_x as int,
            render_flags,
            color_opaque,
        ),
{
    let ghost start = out@;
    let ghost full = row_draws(
        tiles@,
        w as int,
        h as int,
        y as int,
        start_x as int,
        end_x as int,
        render_flags,
        color_opaque,
    );
    let extend = (render_flags & 4) != 0;
    let mut x: i64 = start_x as i64;
    while x < end_x as i64
        invariant
            1 <= w,
            1 <= h,
            tiles@.len() == w * h,
            w * h - 1 <= i32::MAX,
            extend == extends(render_flags),
            start_x <= x,
            row_finishes(tiles@, w as int, h as int, y as int, x as int, end_x as int, render_flags),
            out@ + row_draws(
                tiles@,
                w as int,
                h as int,
                y as int,
                x as int,
                end_x as int,
                render_flags,
                color_opaque,
            ) == start + full,
        decreases if x < end_x { end_x - x } else { 0 },
    {
        let ghost pre = out@;
        let mut mx: i64 = x;
        let mut my: i64 = y as i64;
        if extend {
            if mx < 0 {
                mx = 0;
            }
            if mx >= w as i64 {
                mx = w as i64 - 1;
            }
            if my < 0 {
                my = 0;
            }
            if my >= h as i64 {
                my = h as i64 - 1;
            }
        }
        proof {
            assert(0 <= mx < w && 0 <= my < h);
            lemma_cell_in_layer(w as int, h as int, mx as int, my as int);
            assert(mx + my * w == shown_cell(w as int, h as int, x as int, y as int, render_flags));
        }
        let c = (mx + my * (w as i64)) as usize;
        let t = tiles[c];
        let opaque_tile = (t.flags & TILE_FLAG_OPAQUE) != 0 && color_opaque;
        let render = t.index > 0 && (if opaque_tile {
            (render_flags & 1) != 0
        } else {
            (render_flags & 2) != 0
        });
        if render {
            out.push(
                TileMapDraw {
                    x: x as i32,
                    y,
                    index: t.index,
                    flags: t.flags,
                    tx: (t.index % 16) as i32,
                    ty: (t.index / 16) as i32,
                },
            );
        }
        x = x + t.skip as i64 + 1;
        proof {
            assert(out@ + row_draws(
                tiles@,
                w as int,
                h as int,
                y as int,
                x as int,
                end_x as int,
                render_flags,
                color_opaque,
            ) =~= pre + row_draws(
                tiles@,
                w as int,
                h as int,
                y as int,
                (x - t.skip - 1) as int,
                end_x as int,
                render_flags,
                color_opaque,
            ));
        }
    }
    proof {
        assert(out@ =~= start + full);
    }
}

impl RenderTools {
    /// The tiles a `w` by `h` tile map draws on the canvas cells
    /// `[start_x, end_x) x [start_y, end_y)`, row by row (see
    /// `map_draws`); `color_opaque` says whether the layer's color is fully
    /// opaque.
    pub fn render_tile_map(
        tiles: &Vec<MapTile>,
        w: i32,
        h: i32,
        start_x: i32,
        start_y: i32,
        end_x: i32,
        end_y: i32,
        render_flags: i32,
        color_opaque: bool,
    ) -> (r: Vec<TileMapDraw>)
        requires
            tile_map_walkable(
                tiles@,
                w as int,
                h as int,
                start_x as int,
                start_y as int,
                end_x as int,
                end_y as int,
                render_flags,
            ),
        ensures
            r@ == map_draws(
                tiles@,
                w as int,
                h as int,
                start_y as int,
                end_y as int,
                start_x as int,
                end_x as int,
                render_flags,
                color_opaque,
            ),
    {
        let mut out: Vec<TileMapDraw> = Vec::new();
        let ghost full = map_draws(
            tiles@,
            w as int,
            h as int,
            start_y as int,
            end_y as int,
            start_x as int,
            end_x as int,
            render_flags,
            color_opaque,
        );
        let mut y: i64 = start_y as i64;
        while y < end_y as i64
            invariant
                tile_map_walkable(
                    tiles@,
                    w as int,
                    h as int,
                    start_x as int,
                    start_y as int,
                    end_x as int,
                    end_y as int,
                    render_flags,
                ),
                start_y <= y <= end_y || (y == start_y && end_y < start_y),
                out@ + map_draws(
                    tiles@,
                    w as int,
                    h as int,
                    y as int,
                    end_y as int,
                    start_x as int,
                    end_x as int,
                    render_flags,
                    color_opaque,
                ) == full,
            decreases end_y - y,
        {
            let ghost pre = out@;
            proof {
                assert(row_finishes(
                    tiles@,
                    w as int,
                    h as int,
                    y as int,
                    start_x as int,
                    end_x as int,
                    render_flags,
                ));
            }
            row_tile_draws(tiles, w, h, y as i32, start_x, end_x, render_flags, color_opaque, &mut out);
            y = y + 1;
            proof {
                assert(out@ + map_draws(
                    tiles@,
                    w as int,
                    h as int,
                    y as int,
                    end_y as int,
                    start_x as int,
                    end_x as int,
                    render_flags,
                    color_opaque,
                ) =~= pre + map_draws(
                    tiles@,
                    w as int,
                    h as int,
                    (y - 1) as int,
                    end_y as int,
                    start_x as int,
                    end_x as int,
                    render_flags,
                    color_opaque,
                ));
            }
        }
        proof {
            assert(out@ =~= full);
        }
        out
    }
}


/// The opaque and the transparent pass split the non-empty tiles: each is
/// drawn by exactly one of them, and a pass with both flags draws all.
pub proof fn law_passes_split_tiles(t: MapTile, color_opaque: bool)
    requires
        t.index > 0,
    ensures
        tile_drawn(t, LayerRenderFlag::Opaque.spec_bits(), color_opaque) != tile_drawn(
            t,
            LayerRenderFlag::Transparent.spec_bits(),
            color_opaque,
        ),
        tile_drawn(
            t,
            LayerRenderFlag::Opaque.spec_bits() | LayerRenderFlag::Transparent.spec_bits(),
            color_opaque,
        ),
{
    assert(1i32 & 1i32 != 0 && 1i32 & 2i32 == 0 && 2i32 & 1i32 == 0 && 2i32 & 2i32 != 0 && (1i32
        | 2i32) & 1i32 != 0 && (1i32 | 2i32) & 2i32 != 0) by (bit_vector);
}

} // verus!

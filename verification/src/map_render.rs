//! Integer decisions of the map renderer: which part of a tile layer is
//! visible, which index ranges of the buffered layer are drawn per row, how
//! the repeated border and kill-tile regions outside the map are drawn, and
//! how quads are batched.

use vstd::prelude::*;
use crate::tile_layer::TileLayerKind;
use crate::tile_visual::{STileLayerVisualsBase, STileVisual};

verus! {

/// Bytes of one index in the index buffer.
pub const INDEX_BYTES: usize = 4;
/// Indices of one tile quad.
pub const QUAD_INDICES: usize = 6;

/// The clamped tile rectangle of a layer that a canvas shows.
#[derive(Copy, Clone, PartialEq, Eq, Structural)]
pub struct TileRange {
    pub x0: i32,
    pub y0: i32,
    pub x1: i32,
    pub y1: i32,
    /// The canvas reaches the outermost row or column of the layer (or
    /// beyond), so the repeated border must be drawn.
    pub draw_border: bool,
    /// Some tile of the layer is on the canvas.
    pub draw_layer: bool,
}

pub open spec fn spec_visible_tile_range(
    border_x0: i32,
    border_y0: i32,
    border_x1: i32,
    border_y1: i32,
    width: i32,
    height: i32,
) -> TileRange {
    let x0 = if border_x0 <= 0 { 0 } else { border_x0 };
    let y0 = if border_y0 <= 0 { 0 } else { border_y0 };
    let x1 = if border_x1 >= width - 1 { (width - 1) as i32 } else { border_x1 };
    let y1 = if border_y1 >= height - 1 { (height - 1) as i32 } else { border_y1 };
    TileRange {
        x0,
        y0,
        x1,
        y1,
        draw_border: border_x0 <= 0 || border_y0 <= 0 || border_x1 >= width - 1 || border_y1
            >= height - 1,
        draw_layer: !(x1 < 0 || y1 < 0 || x0 >= width || y0 >= height),
    }
}

/// Clamps the tile rectangle `[border_x0, border_x1] x [border_y0, border_y1]`
/// that the canvas covers to the layer.
pub fn visible_tile_range(
    border_x0: i32,
    border_y0: i32,
    border_x1: i32,
    border_y1: i32,
    width: i32,
    height: i32,
) -> (r: TileRange)
    requires
        width > i32::MIN,
        height > i32::MIN,
    ensures
        r == spec_visible_tile_range(border_x0, border_y0, border_x1, border_y1, width, height),
        border_x0 <= 0 || border_y0 <= 0 || border_x1 >= width - 1 || border_y1 >= height - 1
            <==> r.draw_border,
        r.x0 == (if border_x0 < 0 { 0 } else { border_x0 as int }),
        r.y0 == (if border_y0 < 0 { 0 } else { border_y0 as int }),
{
    let mut y0 = border_y0;
    let mut x0 = border_x0;
    let mut y1 = border_y1;
    let mut x1 = border_x1;
    let mut draw_border = false;
    if x0 <= 0 {
        x0 = 0;
        draw_border = true;
    }
    if y0 <= 0 {
        y0 = 0;
        draw_border = true;
    }
    if x1 >= width - 1 {
        x1 = width - 1;
        draw_border = true;
    }
    if y1 >= height - 1 {
        y1 = height - 1;
        draw_border = true;
    }
    let mut draw_layer = true;
    if x1 < 0 {
        draw_layer = false;
    }
    if y1 < 0 {
        draw_layer = false;
    }
    if x0 >= width {
        draw_layer = false;
    }
    if y0 >= height {
        draw_layer = false;
    }
    TileRange { x0, y0, x1, y1, draw_border, draw_layer }
}

/// The border is drawn exactly when the canvas reaches the layer's
/// outermost column or row on some side (or beyond); the range is the
/// canvas's range cut to the layer, and the layer is drawn exactly when
/// that cut range is not empty.
pub proof fn law_visible_range_and_border(
    border_x0: i32,
    border_y0: i32,
    border_x1: i32,
    border_y1: i32,
    width: i32,
    height: i32,
)
    requires
        width > i32::MIN,
        height > i32::MIN,
    ensures
        ({
            let r = spec_visible_tile_range(border_x0, border_y0, border_x1, border_y1, width, height);
            &&& r.draw_border <==> (border_x0 <= 0 || border_y0 <= 0 || border_x1 >= width - 1
                || border_y1 >= height - 1)
            &&& r.x0 == (if border_x0 < 0 { 0 } else { border_x0 as int })
            &&& r.y0 == (if border_y0 < 0 { 0 } else { border_y0 as int })
            &&& r.x1 == (if border_x1 > width - 1 { width - 1 } else { border_x1 as int })
            &&& r.y1 == (if border_y1 > height - 1 { height - 1 } else { border_y1 as int })
            &&& r.draw_layer <==> (r.x1 >= 0 && r.y1 >= 0 && r.x0 < width && r.y0 < height)
        }),
{
}

/// The offsets of a list of visuals never decrease.
pub open spec fn offsets_monotone(vis: Seq<STileVisual>) -> bool {
    forall|i: int, j: int| 0 <= i <= j < vis.len() ==> vis[i].offset() <= vis[j].offset()
}

/// Number of indices to draw for the visuals `i0..=i1`: from the offset of
/// `i0` to that of `i1`, plus the quad of `i1` when it is drawn.
pub open spec fn span_indices(vis: Seq<STileVisual>, i0: int, i1: int) -> int {
    (vis[i1].offset() - vis[i0].offset()) / (INDEX_BYTES as int) + if vis[i1].draws() {
        QUAD_INDICES as int
    } else {
        0int
    }
}

/// The (byte offset, index count) draws of the rows `y0..y` of a tile layer,
/// rows with nothing to draw left out.
pub open spec fn row_draws(
    vis: Seq<STileVisual>,
    width: int,
    x0: int,
    x1: int,
    y0: int,
    y: int,
) -> Seq<(usize, usize)>
    decreases y - y0,
{
    if y <= y0 || x0 > x1 {
        Seq::empty()
    } else {
        let prev = row_draws(vis, width, x0, x1, y0, y - 1);
        let i0 = (y - 1) * width + x0;
        let i1 = (y - 1) * width + x1;
        let n = span_indices(vis, i0, i1);
        if n > 0 {
            prev.push((vis[i0].offset() as usize, n as usize))
        } else {
            prev
        }
    }
}

/// Each row of the visible range gives at most one draw, in row order; a
/// row whose visible span holds a drawn tile gives exactly one, starting at
/// its first visible tile's quad and counting the indices up to and
/// including its last visible tile.
pub proof fn law_row_draws_one_per_row(
    vis: Seq<STileVisual>,
    width: int,
    x0: int,
    x1: int,
    y0: int,
    y: int,
)
    requires
        x0 <= x1,
        y0 <= y,
    ensures
        row_draws(vis, width, x0, x1, y0, y).len() <= y - y0,
        (forall|r: int| y0 <= r < y ==> #[trigger] span_indices(vis, r * width + x0, r * width + x1)
            > 0) ==> {
            &&& row_draws(vis, width, x0, x1, y0, y).len() == y - y0
            &&& forall|k: int|
                0 <= k < y - y0 ==> #[trigger] row_draws(vis, width, x0, x1, y0, y)[k] == (
                    vis[(y0 + k) * width + x0].offset() as usize,
                    span_indices(vis, (y0 + k) * width + x0, (y0 + k) * width + x1) as usize,
                )
        },
    decreases y - y0,
{
    if y > y0 {
        law_row_draws_one_per_row(vis, width, x0, x1, y0, y - 1);
        if forall|r: int| y0 <= r < y ==> #[trigger] span_indices(vis, r * width + x0, r * width + x1)
            > 0 {
            assert(forall|r: int| y0 <= r < y - 1 ==> #[trigger] span_indices(vis, r * width + x0, r * width + x1) > 0);
            assert(span_indices(vis, (y - 1) * width + x0, (y - 1) * width + x1) > 0);
            let prev = row_draws(vis, width, x0, x1, y0, y - 1);
            let cur = row_draws(vis, width, x0, x1, y0, y);
            assert forall|k: int| 0 <= k < y - y0 implies #[trigger] cur[k] == (
                vis[(y0 + k) * width + x0].offset() as usize,
                span_indices(vis, (y0 + k) * width + x0, (y0 + k) * width + x1) as usize,
            ) by {
                if k < y - 1 - y0 {
                    assert(cur[k] == prev[k]);
                } else {
                    assert(y0 + k == y - 1);
                }
            }
        }
    }
}

pub proof fn lemma_row_index(width: int, height: int, y: int, x: int)
    requires
        0 <= y < height,
        0 <= x < width,
    ensures
        0 <= y * width + x < width * height,
{
    assert(0 <= y * width + x < width * height) by (nonlinear_arith)
        requires
            0 <= y < height,
            0 <= x < width,
    ;
}

/// The draws of a visible tile layer: for every row of the visible range,
/// the byte offset of its first visible tile and the number of indices up to
/// and including its last visible tile.
pub fn tile_layer_draw_ranges(
    tiles_of_layer: &Vec<STileVisual>,
    width: i32,
    height: i32,
    range: TileRange,
) -> (r: (Vec<usize>, Vec<usize>))
    requires
        0 < width,
        0 < height,
        tiles_of_layer@.len() == width * height,
        offsets_monotone(tiles_of_layer@),
        0 <= range.x0,
        range.x1 < width,
        0 <= range.y0,
        range.y1 < height,
        range.x0 <= range.x1 ==> 0 <= range.x1 && range.x0 < width,
    ensures
        r.0@.len() == r.1@.len(),
        forall|k: int|
            0 <= k < r.0@.len() ==> (#[trigger] r.0@[k], r.1@[k]) == row_draws(
                tiles_of_layer@,
                width as int,
                range.x0 as int,
                range.x1 as int,
                range.y0 as int,
                range.y1 + 1,
            )[k],
        r.0@.len() == row_draws(
            tiles_of_layer@,
            width as int,
            range.x0 as int,
            range.x1 as int,
            range.y0 as int,
            range.y1 + 1,
        ).len(),
{
    let ghost vis = tiles_of_layer@;
    let ghost (w, x0, x1, y0) = (width as int, range.x0 as int, range.x1 as int, range.y0 as int);
    let mut offsets: Vec<usize> = Vec::new();
    let mut counts: Vec<usize> = Vec::new();
    if range.x0 > range.x1 || range.y0 > range.y1 {
        return (offsets, counts);
    }
    let len = tiles_of_layer.len();
    let mut y: i32 = range.y0;
    while y <= range.y1
        invariant
            len == vis.len(),
            vis == tiles_of_layer@,
            w == width as int,
            x0 == range.x0 as int,
            x1 == range.x1 as int,
            y0 == range.y0 as int,
            0 < width,
            0 < height,
            vis.len() == width * height,
            offsets_monotone(vis),
            0 <= range.x0 <= range.x1 < width,
            0 <= range.y0 <= range.y1 < height,
            range.y0 <= y <= range.y1 + 1,
            offsets@.len() == counts@.len(),
            offsets@.len() == row_draws(vis, w, x0, x1, y0, y as int).len(),
            forall|k: int|
                0 <= k < offsets@.len() ==> (#[trigger] offsets@[k], counts@[k]) == row_draws(
                    vis,
                    w,
                    x0,
                    x1,
                    y0,
                    y as int,
                )[k],
        decreases range.y1 + 1 - y,
    {
        proof {
            lemma_row_index(width as int, height as int, y as int, range.x0 as int);
            lemma_row_index(width as int, height as int, y as int, range.x1 as int);
        }
        let i0 = (y as usize) * (width as usize) + range.x0 as usize;
        let i1 = (y as usize) * (width as usize) + range.x1 as usize;
        proof {
            assert(i0 as int == (y as int) * (width as int) + (range.x0 as int));
            assert(i1 as int == (y as int) * (width as int) + (range.x1 as int));
            assert((width as int) * (height as int) == vis.len());
        }
        let off0 = tiles_of_layer[i0].index_buffer_byte_offset();
        let off1 = tiles_of_layer[i1].index_buffer_byte_offset();
        let extra: usize = if tiles_of_layer[i1].do_draw() {
            QUAD_INDICES
        } else {
            0
        };
        let n = (off1 - off0) / INDEX_BYTES + extra;
        proof {
            assert(row_draws(vis, w, x0, x1, y0, y as int + 1) == {
                let prev = row_draws(vis, w, x0, x1, y0, y as int);
                let n = span_indices(vis, i0 as int, i1 as int);
                if n > 0 {
                    prev.push((vis[i0 as int].offset() as usize, n as usize))
                } else {
                    prev
                }
            });
        }
        if n > 0 {
            offsets.push(off0);
            counts.push(n);
        }
        y = y + 1;
    }
    (offsets, counts)
}

/// Which layers of the map a renderer draws.
#[derive(Copy, Clone, PartialEq, Eq, Structural)]
pub enum RenderMapTypes {
    Background,
    BackgroundForced,
    Foreground,
    FullDesign,
    All,
}

impl RenderMapTypes {
    /// The background kinds: they stop at the game layer.
    pub open spec fn spec_is_background(&self) -> bool {
        self == RenderMapTypes::Background || self == RenderMapTypes::BackgroundForced
    }

    pub fn is_background(&self) -> (r: bool)
        ensures
            r == self.spec_is_background(),
    {
        match self {
            RenderMapTypes::Background => true,
            RenderMapTypes::BackgroundForced => true,
            _ => false,
        }
    }
}

/// The kind of a map layer.
#[derive(Copy, Clone, PartialEq, Eq, Structural)]
pub enum MapLayerType {
    Tiles,
    Quads,
    Other,
}

/// What the renderer knows of a layer of a group.
#[derive(Copy, Clone)]
pub struct GroupLayer {
    pub layer_type: MapLayerType,
    pub kind: TileLayerKind,
    pub is_detail: bool,
    /// The map image the layer is drawn with, -1 for none.
    pub image: i32,
}

/// Render options that decide which layers are drawn.
#[derive(Copy, Clone)]
pub struct LayerRenderConfig {
    pub gfx_no_clip: bool,
    pub gfx_high_detail: bool,
    pub cl_background_show_tile_layers: bool,
    pub cl_overlay_entities: i32,
}

/// What the renderer does with a layer, and by how much the tile-visual and
/// quad-visual counters advance.
#[derive(Copy, Clone, PartialEq, Eq, Structural)]
pub enum LayerStep {
    /// Stop drawing the map.
    Stop,
    Next { tile_visuals: usize, quad_visuals: usize, draw: bool },
}

/// Number of buffered tile visuals (the layer and its overlays) the
/// renderer counts for a tile layer.
pub open spec fn render_visual_count(kind: TileLayerKind) -> usize {
    if kind.is_front {
        1
    } else if kind.is_switch {
        3
    } else if kind.is_tele {
        2
    } else if kind.is_speedup {
        3
    } else {
        1
    }
}

/// Number of buffered tile visuals (the layer and its overlays) the upload
/// prepares for a tile layer.
pub open spec fn upload_visual_count(kind: TileLayerKind) -> usize {
    if kind.is_switch {
        3
    } else if kind.is_tele {
        2
    } else if kind.is_speedup {
        3
    } else {
        1
    }
}

pub fn tile_layer_and_overlay_count(kind: &TileLayerKind) -> (r: usize)
    ensures
        r == render_visual_count(*kind),
{
    if kind.is_front {
        1
    } else if kind.is_switch {
        3
    } else if kind.is_tele {
        2
    } else if kind.is_speedup {
        3
    } else if kind.is_tune {
        1
    } else {
        1
    }
}

/// Number of overlays the upload adds on top of a tile layer.
pub fn overlay_count(kind: &TileLayerKind) -> (r: u32)
    ensures
        r + 1 == upload_visual_count(*kind),
{
    if kind.is_switch {
        2
    } else if kind.is_tele {
        1
    } else if kind.is_speedup {
        2
    } else {
        0
    }
}

/// The layer has at most one of the entity kinds.
pub open spec fn single_kind(kind: TileLayerKind) -> bool {
    (if kind.is_game { 1int } else { 0 }) + (if kind.is_front { 1int } else { 0 }) + (if kind.is_switch {
        1int
    } else {
        0
    }) + (if kind.is_tele { 1int } else { 0 }) + (if kind.is_speedup { 1int } else { 0 }) + (
    if kind.is_tune { 1int } else { 0 }) <= 1
}

/// For a layer of a single kind, the renderer counts as many tile visuals as
/// the upload prepared, so its counter finds the layer's visuals.
pub proof fn law_render_counts_uploaded_visuals(kind: TileLayerKind)
    requires
        single_kind(kind),
    ensures
        render_visual_count(kind) == upload_visual_count(kind),
{
}

/// Tile and quad visual counts of a group's layers (every tile layer counts
/// its overlays); notes whether the game layer was among them.
pub fn layers_of_group_count(
    layers: &Vec<GroupLayer>,
    tile_layer_count: &mut usize,
    quad_layer_count: &mut usize,
    passed_game_layer: &mut bool,
)
    requires
        *old(tile_layer_count) + 3 * layers@.len() <= usize::MAX,
        *old(quad_layer_count) + layers@.len() <= usize::MAX,
    ensures
        *final(tile_layer_count) == *old(tile_layer_count) + group_tile_visuals(layers@),
        *final(quad_layer_count) == *old(quad_layer_count) + group_quad_visuals(layers@),
        *final(passed_game_layer) == (*old(passed_game_layer) || group_has_game(layers@)),
{
    let mut tile_layer_counter: usize = 0;
    let mut quad_layer_counter: usize = 0;
    let mut l: usize = 0;
    while l < layers.len()
        invariant
            l <= layers@.len(),
            *old(tile_layer_count) + 3 * layers@.len() <= usize::MAX,
            *old(quad_layer_count) + layers@.len() <= usize::MAX,
            tile_layer_counter == group_tile_visuals(layers@.take(l as int)),
            quad_layer_counter == group_quad_visuals(layers@.take(l as int)),
            tile_layer_counter <= 3 * l,
            quad_layer_counter <= l,
            *passed_game_layer == (*old(passed_game_layer) || group_has_game(layers@.take(l as int))),
            *tile_layer_count == *old(tile_layer_count),
            *quad_layer_count == *old(quad_layer_count),
        decreases layers@.len() - l,
    {
        let layer = &layers[l];
        proof {
            assert(layers@.take(l as int + 1).drop_last() =~= layers@.take(l as int));
        }
        if layer.kind.is_game {
            *passed_game_layer = true;
        }
        match layer.layer_type {
            MapLayerType::Tiles => {
                tile_layer_counter += tile_layer_and_overlay_count(&layer.kind);
            },
            MapLayerType::Quads => {
                quad_layer_counter += 1;
            },
            MapLayerType::Other => {},
        }
        l = l + 1;
    }
    proof {
        assert(layers@.take(layers@.len() as int) =~= layers@);
    }
    *tile_layer_count += tile_layer_counter;
    *quad_layer_count += quad_layer_counter;
}

pub open spec fn group_tile_visuals(layers: Seq<GroupLayer>) -> int
    decreases layers.len(),
{
    if layers.len() == 0 {
        0
    } else {
        group_tile_visuals(layers.drop_last()) + if layers.last().layer_type
            == MapLayerType::Tiles {
            render_visual_count(layers.last().kind) as int
        } else {
            0
        }
    }
}

pub open spec fn group_quad_visuals(layers: Seq<GroupLayer>) -> int
    decreases layers.len(),
{
    if layers.len() == 0 {
        0
    } else {
        group_quad_visuals(layers.drop_last()) + if layers.last().layer_type
            == MapLayerType::Quads {
            1int
        } else {
            0
        }
    }
}

pub open spec fn group_has_game(layers: Seq<GroupLayer>) -> bool {
    exists|i: int| 0 <= i < layers.len() && (#[trigger] layers[i]).kind.is_game
}

/// The map renderer; its type decides which layers it draws.
pub struct RenderMap {
    pub map_type: RenderMapTypes,
}

impl RenderMap {
    pub fn new() -> (r: RenderMap)
        ensures
            r.map_type == RenderMapTypes::FullDesign,
    {
        RenderMap { map_type: RenderMapTypes::FullDesign }
    }

    /// A group with clipping is clipped unless clipping is switched off (a
    /// full-design map always clips).
    pub fn uses_clipping(&self, gfx_no_clip: bool, group_version: i32, use_clipping: i32) -> (r:
        bool)
        ensures
            r == ((!gfx_no_clip || self.map_type == RenderMapTypes::FullDesign) && group_version
                >= 2 && use_clipping > 0),
    {
        (!gfx_no_clip || self.map_type == RenderMapTypes::FullDesign) && group_version >= 2
            && use_clipping > 0
    }

    pub open spec fn spec_layer_step(
        &self,
        layer: GroupLayer,
        passed_game_layer: bool,
        config: LayerRenderConfig,
    ) -> LayerStep {
        let t = self.map_type;
        let game = layer.kind.is_game;
        let entity = layer.kind.is_entity();
        let passed = passed_game_layer || game;
        if t.spec_is_background() && passed {
            LayerStep::Stop
        } else if t == RenderMapTypes::BackgroundForced && layer.layer_type == MapLayerType::Tiles
            && !config.cl_background_show_tile_layers {
            LayerStep::Next { tile_visuals: 0, quad_visuals: 0, draw: false }
        } else {
            let do_render = if t == RenderMapTypes::All || t.spec_is_background() {
                true
            } else if t == RenderMapTypes::Foreground {
                passed && !game
            } else {
                !game
            };
            let tile_visuals = if layer.layer_type == MapLayerType::Tiles && (do_render || game) {
                render_visual_count(layer.kind)
            } else {
                0
            };
            let quad_visuals: usize = if layer.layer_type == MapLayerType::Quads && do_render {
                1
            } else {
                0
            };
            let skip = (layer.is_detail && !config.gfx_high_detail && t
                != RenderMapTypes::FullDesign && !game) || (t == RenderMapTypes::BackgroundForced
                && entity) || (t == RenderMapTypes::FullDesign && entity);
            let overlay = if t == RenderMapTypes::FullDesign {
                0
            } else {
                config.cl_overlay_entities
            };
            let draw = !skip && ((do_render && overlay < 100 && !entity) || (overlay > 0 && game)
                || t == RenderMapTypes::BackgroundForced);
            LayerStep::Next { tile_visuals, quad_visuals, draw }
        }
    }

    /// Decides what happens to one layer of a group while the map is drawn;
    /// notes when the game layer has been passed.
    pub fn layer_step(
        &self,
        layer: &GroupLayer,
        passed_game_layer: &mut bool,
        config: &LayerRenderConfig,
    ) -> (r: LayerStep)
        ensures
            *final(passed_game_layer) == (*old(passed_game_layer) || layer.kind.is_game),
            r == self.spec_layer_step(*layer, *old(passed_game_layer), *config),
    {
        let is_game_layer = layer.kind.is_game;
        let is_entity_layer = layer.kind.entity();
        if is_game_layer {
            *passed_game_layer = true;
        }
        let t = self.map_type;
        let mut do_render = false;
        if t == RenderMapTypes::All {
            do_render = true;
        } else if t.is_background() {
            if *passed_game_layer {
                return LayerStep::Stop;
            }
            do_render = true;
            if t == RenderMapTypes::BackgroundForced {
                if layer.layer_type == MapLayerType::Tiles && !config.cl_background_show_tile_layers {
                    return LayerStep::Next { tile_visuals: 0, quad_visuals: 0, draw: false };
                }
            }
        } else if t == RenderMapTypes::Foreground {
            if *passed_game_layer && !is_game_layer {
                do_render = true;
            }
        } else if t == RenderMapTypes::FullDesign {
            if !is_game_layer {
                do_render = true;
            }
        }
        let mut tile_visuals: usize = 0;
        let mut quad_visuals: usize = 0;
        if layer.layer_type == MapLayerType::Tiles {
            if do_render || is_game_layer {
                tile_visuals = tile_layer_and_overlay_count(&layer.kind);
            }
        } else if do_render && layer.layer_type == MapLayerType::Quads {
            quad_visuals = 1;
        }
        if (layer.is_detail && (!config.gfx_high_detail && !(t == RenderMapTypes::FullDesign))
            && !is_game_layer) || (t == RenderMapTypes::BackgroundForced && is_entity_layer) || (t
            == RenderMapTypes::FullDesign && is_entity_layer) {
            return LayerStep::Next { tile_visuals, quad_visuals, draw: false };
        }
        let mut entity_overlay_val = config.cl_overlay_entities;
        if t == RenderMapTypes::FullDesign {
            entity_overlay_val = 0;
        }
        let draw = (do_render && entity_overlay_val < 100 && !is_entity_layer) || (entity_overlay_val
            > 0 && is_game_layer) || (t == RenderMapTypes::BackgroundForced);
        LayerStep::Next { tile_visuals, quad_visuals, draw }
    }
}

/// A draw call of the region outside the map. Offsets and directions are in
/// tiles (the renderer scales them by the tile size).
#[derive(Copy, Clone, PartialEq, Eq, Structural)]
pub enum BorderDraw {
    /// Repeat the quad at `byte_offset` over a grid of `count` tiles,
    /// `count_x` per row, starting at the offset and stepping by `dir`.
    Tiles {
        byte_offset: usize,
        offset_x: i32,
        offset_y: i32,
        dir_x: i32,
        dir_y: i32,
        count_x: i32,
        count: usize,
    },
    /// Draw the `index_count` indices at `byte_offset` (a line of border
    /// tiles) `repeat` times, shifted by `dir` each time.
    Lines {
        byte_offset: usize,
        offset_x: i32,
        offset_y: i32,
        dir_x: i32,
        dir_y: i32,
        index_count: usize,
        repeat: usize,
    },
}

pub open spec fn min_i(a: int, b: int) -> int {
    if a < b { a } else { b }
}

pub open spec fn abs_i(a: int) -> int {
    if a < 0 { -a } else { a }
}

/// The corner region: `width_off` by `height_off` tiles from the corner,
/// cut to the canvas; the corner tile itself is left out when it is on the
/// canvas (the layer draws it).
pub open spec fn corner_tiles(
    byte_offset: usize,
    width_off: int,
    height_off: int,
    count_w: int,
    count_h: int,
    ox: int,
    oy: int,
    dx: int,
    dy: int,
) -> BorderDraw {
    let cx = min_i(width_off, count_w);
    let cy = min_i(height_off, count_h);
    let corner_visible = width_off - 1 < count_w && height_off - 1 < count_h;
    BorderDraw::Tiles {
        byte_offset,
        offset_x: ox as i32,
        offset_y: oy as i32,
        dir_x: dx as i32,
        dir_y: dy as i32,
        count_x: cx as i32,
        count: (cx * cy - if corner_visible { 1int } else { 0int }) as usize,
    }
}

/// The number of corner tiles, `min(width_off, count_w) * min(height_off,
/// count_h)`, is a 32-bit integer, as the renderer computes it.
pub open spec fn corner_fits(width_off: int, height_off: int, count_w: int, count_h: int) -> bool {
    &&& 1 <= width_off <= 0x7fff_ffff
    &&& 1 <= height_off <= 0x7fff_ffff
    &&& -0x8000_0000 <= min_i(width_off, count_w) * min_i(height_off, count_h) <= 0x7fff_ffff
}

pub fn render_tile_border_corner_tiles(
    width_offset_to_origin: i32,
    height_offset_to_origin: i32,
    tile_count_width: i32,
    tile_count_height: i32,
    index_buffer_offset: usize,
    offset_x: i32,
    offset_y: i32,
    dir_x: i32,
    dir_y: i32,
) -> (r: BorderDraw)
    requires
        corner_fits(
            width_offset_to_origin as int,
            height_offset_to_origin as int,
            tile_count_width as int,
            tile_count_height as int,
        ),
    ensures
        r == corner_tiles(
            index_buffer_offset,
            width_offset_to_origin as int,
            height_offset_to_origin as int,
            tile_count_width as int,
            tile_count_height as int,
            offset_x as int,
            offset_y as int,
            dir_x as int,
            dir_y as int,
        ),
{
    let corner_visible = (width_offset_to_origin - 1 < tile_count_width) && (
    height_offset_to_origin - 1 < tile_count_height);
    let count_x = if width_offset_to_origin < tile_count_width {
        width_offset_to_origin
    } else {
        tile_count_width
    };
    let count_y = if height_offset_to_origin < tile_count_height {
        height_offset_to_origin
    } else {
        tile_count_height
    };
    proof {
        if corner_visible {
            assert(count_x * count_y >= 1) by (nonlinear_arith)
                requires
                    1 <= count_x,
                    1 <= count_y,
            ;
        }
    }
    let product: i32 = count_x * count_y;
    let count = (product as usize) - (if corner_visible {
        1
    } else {
        0
    });
    BorderDraw::Tiles {
        byte_offset: index_buffer_offset,
        offset_x,
        offset_y,
        dir_x,
        dir_y,
        count_x,
        count,
    }
}

/// A line of border tiles from visual `lo` to visual `hi`, repeated.
pub open spec fn line_draw(
    vis: Seq<STileVisual>,
    lo: int,
    hi: int,
    ox: int,
    oy: int,
    dx: int,
    dy: int,
    repeat: int,
) -> BorderDraw {
    BorderDraw::Lines {
        byte_offset: vis[lo].offset() as usize,
        offset_x: ox as i32,
        offset_y: oy as i32,
        dir_x: dx as i32,
        dir_y: dy as i32,
        index_count: span_indices(vis, lo, hi) as usize,
        repeat: repeat as usize,
    }
}

pub open spec fn opt_draw(b: bool, d: BorderDraw) -> Seq<BorderDraw> {
    if b {
        seq![d]
    } else {
        Seq::empty()
    }
}

/// The border lists of the visuals have the lengths of a `w` by `h` layer
/// and non-decreasing offsets.
pub open spec fn borders_well_formed(v: STileLayerVisualsBase, w: int, h: int) -> bool {
    &&& v.border_top@.len() == (if w > 2 { w - 2 } else { 0 })
    &&& v.border_bottom@.len() == (if w > 2 { w - 2 } else { 0 })
    &&& v.border_left@.len() == (if h > 2 { h - 2 } else { 0 })
    &&& v.border_right@.len() == (if h > 2 { h - 2 } else { 0 })
    &&& offsets_monotone(v.border_top@)
    &&& offsets_monotone(v.border_bottom@)
    &&& offsets_monotone(v.border_left@)
    &&& offsets_monotone(v.border_right@)
}

/// The arguments of a border computation for which the renderer's 32-bit
/// arithmetic does not overflow: the layer has tiles, the covered range is
/// ordered (the border lines subtract offsets from its start to its end),
/// the distances the renderer takes absolute values of are not the lowest
/// 32-bit integer, and each corner that is drawn has a 32-bit tile count.
pub open spec fn border_args_ok(
    v: STileLayerVisualsBase,
    w: int,
    h: int,
    bx0: int,
    by0: int,
    bx1: int,
    by1: int,
    cw: int,
    ch: int,
) -> bool {
    &&& 1 <= w
    &&& 1 <= h
    &&& bx0 <= bx1
    &&& by0 <= by1
    &&& -0x8000_0000 < bx0
    &&& -0x8000_0000 < by0
    &&& (bx0 <= 0 && by0 <= 0 && v.border_top_left.draws()) ==> corner_fits(
        abs_i(bx0) + 1,
        abs_i(by0) + 1,
        cw,
        ch,
    )
    &&& (bx0 <= 0 && by1 >= h - 1 && v.border_bottom_left.draws()) ==> corner_fits(
        abs_i(bx0) + 1,
        by1 - (h - 1) + 1,
        cw,
        ch,
    )
    &&& (bx1 >= w - 1 && by0 <= 0 && v.border_top_right.draws()) ==> corner_fits(
        bx1 - (w - 1) + 1,
        abs_i(by0) + 1,
        cw,
        ch,
    )
    &&& (bx1 >= w - 1 && by1 >= h - 1 && v.border_bottom_right.draws()) ==> corner_fits(
        bx1 - (w - 1) + 1,
        by1 - (h - 1) + 1,
        cw,
        ch,
    )
}

/// The clamped inner border range the border lines cover.
pub open spec fn inner_x0(bx0: int) -> int {
    if bx0 < 1 { 1 } else { bx0 }
}

pub open spec fn inner_x1(bx1: int, w: int) -> int {
    if bx1 >= w - 1 { w - 2 } else { bx1 }
}

/// The draws left of the layer: the two left corners and the left border.
pub open spec fn left_border_draws(
    v: STileLayerVisualsBase,
    w: int,
    h: int,
    bx0: int,
    by0: int,
    bx1: int,
    by1: int,
    cw: int,
    ch: int,
) -> Seq<BorderDraw> {
    let y0 = inner_x0(by0);
    let y1 = inner_x1(by1, h);
    opt_draw(
        bx0 <= 0 && by0 <= 0 && v.border_top_left.draws(),
        corner_tiles(
            v.border_top_left.offset() as usize,
            abs_i(bx0) + 1,
            abs_i(by0) + 1,
            cw,
            ch,
            bx0,
            by0,
            1,
            1,
        ),
    ) + opt_draw(
        bx0 <= 0 && by1 >= h - 1 && v.border_bottom_left.draws(),
        corner_tiles(
            v.border_bottom_left.offset() as usize,
            abs_i(bx0) + 1,
            by1 - (h - 1) + 1,
            cw,
            ch,
            bx0,
            by1 - (h - 1),
            1,
            -1,
        ),
    ) + opt_draw(
        bx0 < 0 && y0 < h - 1 && y1 > 0,
        line_draw(v.border_left@, y0 - 1, y1 - 1, bx0, 0, 1, 0, min_i(abs_i(bx0), cw)),
    )
}

/// The draws right of the layer: the two right corners and the right border.
pub open spec fn right_border_draws(
    v: STileLayerVisualsBase,
    w: int,
    h: int,
    bx0: int,
    by0: int,
    bx1: int,
    by1: int,
    cw: int,
    ch: int,
) -> Seq<BorderDraw> {
    let y0 = inner_x0(by0);
    let y1 = inner_x1(by1, h);
    opt_draw(
        bx1 >= w - 1 && by0 <= 0 && v.border_top_right.draws(),
        corner_tiles(
            v.border_top_right.offset() as usize,
            bx1 - (w - 1) + 1,
            abs_i(by0) + 1,
            cw,
            ch,
            bx1 - (w - 1),
            by0,
            -1,
            1,
        ),
    ) + opt_draw(
        bx1 >= w - 1 && by1 >= h - 1 && v.border_bottom_right.draws(),
        corner_tiles(
            v.border_bottom_right.offset() as usize,
            bx1 - (w - 1) + 1,
            by1 - (h - 1) + 1,
            cw,
            ch,
            bx1 - (w - 1),
            by1 - (h - 1),
            -1,
            -1,
        ),
    ) + opt_draw(
        bx1 > w - 1 && y0 < h - 1 && y1 > 0,
        line_draw(
            v.border_right@,
            y0 - 1,
            y1 - 1,
            bx1 - (w - 1),
            0,
            -1,
            0,
            min_i(bx1 - (w - 1), cw),
        ),
    )
}

/// The draws above and below the layer: the top and bottom borders.
pub open spec fn top_bottom_border_draws(
    v: STileLayerVisualsBase,
    w: int,
    h: int,
    bx0: int,
    by0: int,
    bx1: int,
    by1: int,
    cw: int,
    ch: int,
) -> Seq<BorderDraw> {
    let x0 = inner_x0(bx0);
    let x1 = inner_x1(bx1, w);
    opt_draw(
        by0 < 0 && x0 < w - 1 && x1 > 0,
        line_draw(v.border_top@, x0 - 1, x1 - 1, 0, by0, 0, 1, min_i(abs_i(by0), ch)),
    ) + opt_draw(
        by1 >= h && x0 < w - 1 && x1 > 0,
        line_draw(
            v.border_bottom@,
            x0 - 1,
            x1 - 1,
            0,
            by1 - (h - 1),
            0,
            -1,
            min_i(by1 - (h - 1), ch),
        ),
    )
}

/// The draws of the repeated border around a tile layer, in the order the
/// renderer issues them: left corners, left border, right corners, right
/// border, top border, bottom border.
pub open spec fn spec_tile_border_draws(
    v: STileLayerVisualsBase,
    w: int,
    h: int,
    bx0: int,
    by0: int,
    bx1: int,
    by1: int,
    cw: int,
    ch: int,
) -> Seq<BorderDraw> {
    left_border_draws(v, w, h, bx0, by0, bx1, by1, cw, ch) + right_border_draws(
        v,
        w,
        h,
        bx0,
        by0,
        bx1,
        by1,
        cw,
        ch,
    ) + top_bottom_border_draws(v, w, h, bx0, by0, bx1, by1, cw, ch)
}

/// A line of border visuals `lo..=hi`.
pub fn border_line(
    vis: &Vec<STileVisual>,
    lo: usize,
    hi: usize,
    offset_x: i32,
    offset_y: i32,
    dir_x: i32,
    dir_y: i32,
    repeat: usize,
) -> (r: BorderDraw)
    requires
        lo <= hi < vis@.len(),
        offsets_monotone(vis@),
    ensures
        r == line_draw(
            vis@,
            lo as int,
            hi as int,
            offset_x as int,
            offset_y as int,
            dir_x as int,
            dir_y as int,
            repeat as int,
        ),
{
    let byte_offset = vis[lo].index_buffer_byte_offset();
    let extra: usize = if vis[hi].do_draw() {
        QUAD_INDICES
    } else {
        0
    };
    let index_count = (vis[hi].index_buffer_byte_offset() - byte_offset) / INDEX_BYTES + extra;
    BorderDraw::Lines { byte_offset, offset_x, offset_y, dir_x, dir_y, index_count, repeat }
}

pub fn left_tile_border_draws(
    visuals: &STileLayerVisualsBase,
    width: i32,
    height: i32,
    border_x0: i32,
    border_y0: i32,
    border_x1: i32,
    border_y1: i32,
    canvas_width_tile_count: i32,
    canvas_height_tile_count: i32,
) -> (r: Vec<BorderDraw>)
    requires
        borders_well_formed(*visuals, width as int, height as int),
        border_args_ok(
            *visuals,
            width as int,
            height as int,
            border_x0 as int,
            border_y0 as int,
            border_x1 as int,
            border_y1 as int,
            canvas_width_tile_count as int,
            canvas_height_tile_count as int,
        ),
    ensures
        r@ == left_border_draws(
            *visuals,
            width as int,
            height as int,
            border_x0 as int,
            border_y0 as int,
            border_x1 as int,
            border_y1 as int,
            canvas_width_tile_count as int,
            canvas_height_tile_count as int,
        ),
{
    let mut r: Vec<BorderDraw> = Vec::new();
    let count_width = canvas_width_tile_count;
    let count_height = canvas_height_tile_count;
    let y0 = if border_y0 < 1 {
        1
    } else {
        border_y0
    };
    let y1 = if border_y1 >= height - 1 {
        height - 2
    } else {
        border_y1
    };
    if border_x0 <= 0 && border_y0 <= 0 && visuals.border_top_left.do_draw() {
        r.push(
            render_tile_border_corner_tiles(
                -border_x0 + 1,
                -border_y0 + 1,
                count_width,
                count_height,
                visuals.border_top_left.index_buffer_byte_offset(),
                border_x0,
                border_y0,
                1,
                1,
            ),
        );
    }
    let ghost s1 = r@;
    if border_x0 <= 0 && border_y1 >= height - 1 && visuals.border_bottom_left.do_draw() {
        r.push(
            render_tile_border_corner_tiles(
                -border_x0 + 1,
                (border_y1 - (height - 1)) + 1,
                count_width,
                count_height,
                visuals.border_bottom_left.index_buffer_byte_offset(),
                border_x0,
                border_y1 - (height - 1),
                1,
                -1,
            ),
        );
    }
    let ghost s2 = r@;
    if border_x0 < 0 && y0 < height - 1 && y1 > 0 {
        let repeat = if -border_x0 < count_width {
            -border_x0
        } else {
            count_width
        };
        r.push(
            border_line(
                &visuals.border_left,
                (y0 - 1) as usize,
                (y1 - 1) as usize,
                border_x0,
                0,
                1,
                0,
                repeat as usize,
            ),
        );
    }
    proof {
        let v = *visuals;
        let (w, h, bx0, by0, by1, cw, ch) = (
            width as int,
            height as int,
            border_x0 as int,
            border_y0 as int,
            border_y1 as int,
            count_width as int,
            count_height as int,
        );
        let a = opt_draw(
            bx0 <= 0 && by0 <= 0 && v.border_top_left.draws(),
            corner_tiles(
                v.border_top_left.offset() as usize,
                abs_i(bx0) + 1,
                abs_i(by0) + 1,
                cw,
                ch,
                bx0,
                by0,
                1,
                1,
            ),
        );
        let b = opt_draw(
            bx0 <= 0 && by1 >= h - 1 && v.border_bottom_left.draws(),
            corner_tiles(
                v.border_bottom_left.offset() as usize,
                abs_i(bx0) + 1,
                by1 - (h - 1) + 1,
                cw,
                ch,
                bx0,
                by1 - (h - 1),
                1,
                -1,
            ),
        );
        assert(s1 =~= a);
        assert(s2 =~= a + b);
    }
    r
}

pub fn right_tile_border_draws(
    visuals: &STileLayerVisualsBase,
    width: i32,
    height: i32,
    border_x0: i32,
    border_y0: i32,
    border_x1: i32,
    border_y1: i32,
    canvas_width_tile_count: i32,
    canvas_height_tile_count: i32,
) -> (r: Vec<BorderDraw>)
    requires
        borders_well_formed(*visuals, width as int, height as int),
        border_args_ok(
            *visuals,
            width as int,
            height as int,
            border_x0 as int,
            border_y0 as int,
            border_x1 as int,
            border_y1 as int,
            canvas_width_tile_count as int,
            canvas_height_tile_count as int,
        ),
    ensures
        r@ == right_border_draws(
            *visuals,
            width as int,
            height as int,
            border_x0 as int,
            border_y0 as int,
            border_x1 as int,
            border_y1 as int,
            canvas_width_tile_count as int,
            canvas_height_tile_count as int,
        ),
{
    let mut r: Vec<BorderDraw> = Vec::new();
    let count_width = canvas_width_tile_count;
    let count_height = canvas_height_tile_count;
    let y0 = if border_y0 < 1 {
        1
    } else {
        border_y0
    };
    let y1 = if border_y1 >= height - 1 {
        height - 2
    } else {
        border_y1
    };
    if border_x1 >= width - 1 && border_y0 <= 0 && visuals.border_top_right.do_draw() {
        r.push(
            render_tile_border_corner_tiles(
                (border_x1 - (width - 1)) + 1,
                -border_y0 + 1,
                count_width,
                count_height,
                visuals.border_top_right.index_buffer_byte_offset(),
                border_x1 - (width - 1),
                border_y0,
                -1,
                1,
            ),
        );
    }
    let ghost s1 = r@;
    if border_x1 >= width - 1 && border_y1 >= height - 1 && visuals.border_bottom_right.do_draw() {
        r.push(
            render_tile_border_corner_tiles(
                (border_x1 - (width - 1)) + 1,
                (border_y1 - (height - 1)) + 1,
                count_width,
                count_height,
                visuals.border_bottom_right.index_buffer_byte_offset(),
                border_x1 - (width - 1),
                border_y1 - (height - 1),
                -1,
                -1,
            ),
        );
    }
    let ghost s2 = r@;
    if border_x1 > width - 1 && y0 < height - 1 && y1 > 0 {
        let d = border_x1 - (width - 1);
        let repeat = if d < count_width {
            d
        } else {
            count_width
        };
        r.push(
            border_line(
                &visuals.border_right,
                (y0 - 1) as usize,
                (y1 - 1) as usize,
                d,
                0,
                -1,
                0,
                repeat as usize,
            ),
        );
    }
    proof {
        let v = *visuals;
        let (w, h, bx1, by0, by1, cw, ch) = (
            width as int,
            height as int,
            border_x1 as int,
            border_y0 as int,
            border_y1 as int,
            count_width as int,
            count_height as int,
        );
        let a = opt_draw(
            bx1 >= w - 1 && by0 <= 0 && v.border_top_right.draws(),
            corner_tiles(
                v.border_top_right.offset() as usize,
                bx1 - (w - 1) + 1,
                abs_i(by0) + 1,
                cw,
                ch,
                bx1 - (w - 1),
                by0,
                -1,
                1,
            ),
        );
        let b = opt_draw(
            bx1 >= w - 1 && by1 >= h - 1 && v.border_bottom_right.draws(),
            corner_tiles(
                v.border_bottom_right.offset() as usize,
                bx1 - (w - 1) + 1,
                by1 - (h - 1) + 1,
                cw,
                ch,
                bx1 - (w - 1),
                by1 - (h - 1),
                -1,
                -1,
            ),
        );
        assert(s1 =~= a);
        assert(s2 =~= a + b);
    }
    r
}

pub fn top_bottom_tile_border_draws(
    visuals: &STileLayerVisualsBase,
    width: i32,
    height: i32,
    border_x0: i32,
    border_y0: i32,
    border_x1: i32,
    border_y1: i32,
    canvas_width_tile_count: i32,
    canvas_height_tile_count: i32,
) -> (r: Vec<BorderDraw>)
    requires
        borders_well_formed(*visuals, width as int, height as int),
        border_args_ok(
            *visuals,
            width as int,
            height as int,
            border_x0 as int,
            border_y0 as int,
            border_x1 as int,
            border_y1 as int,
            canvas_width_tile_count as int,
            canvas_height_tile_count as int,
        ),
    ensures
        r@ == top_bottom_border_draws(
            *visuals,
            width as int,
            height as int,
            border_x0 as int,
            border_y0 as int,
            border_x1 as int,
            border_y1 as int,
            canvas_width_tile_count as int,
            canvas_height_tile_count as int,
        ),
{
    let mut r: Vec<BorderDraw> = Vec::new();
    let count_height = canvas_height_tile_count;
    let x0 = if border_x0 < 1 {
        1
    } else {
        border_x0
    };
    let x1 = if border_x1 >= width - 1 {
        width - 2
    } else {
        border_x1
    };
    if border_y0 < 0 && x0 < width - 1 && x1 > 0 {
        let repeat = if -border_y0 < count_height {
            -border_y0
        } else {
            count_height
        };
        r.push(
            border_line(
                &visuals.border_top,
                (x0 - 1) as usize,
                (x1 - 1) as usize,
                0,
                border_y0,
                0,
                1,
                repeat as usize,
            ),
        );
    }
    let ghost s1 = r@;
    if border_y1 >= height && x0 < width - 1 && x1 > 0 {
        let d = border_y1 - (height - 1);
        let repeat = if d < count_height {
            d
        } else {
            count_height
        };
        r.push(
            border_line(
                &visuals.border_bottom,
                (x0 - 1) as usize,
                (x1 - 1) as usize,
                0,
                d,
                0,
                -1,
                repeat as usize,
            ),
        );
    }
    r
}

/// The draws of the repeated border of a tile layer whose canvas covers the
/// tiles `[border_x0, border_x1] x [border_y0, border_y1]`; the canvas is
/// `canvas_width_tile_count` by `canvas_height_tile_count` tiles.
pub fn tile_border_draws(
    visuals: &STileLayerVisualsBase,
    width: i32,
    height: i32,
    border_x0: i32,
    border_y0: i32,
    border_x1: i32,
    border_y1: i32,
    canvas_width_tile_count: i32,
    canvas_height_tile_count: i32,
) -> (r: Vec<BorderDraw>)
    requires
        borders_well_formed(*visuals, width as int, height as int),
        border_args_ok(
            *visuals,
            width as int,
            height as int,
            border_x0 as int,
            border_y0 as int,
            border_x1 as int,
            border_y1 as int,
            canvas_width_tile_count as int,
            canvas_height_tile_count as int,
        ),
    ensures
        r@ == spec_tile_border_draws(
            *visuals,
            width as int,
            height as int,
            border_x0 as int,
            border_y0 as int,
            border_x1 as int,
            border_y1 as int,
            canvas_width_tile_count as int,
            canvas_height_tile_count as int,
        ),
{
    let mut r = left_tile_border_draws(
        visuals,
        width,
        height,
        border_x0,
        border_y0,
        border_x1,
        border_y1,
        canvas_width_tile_count,
        canvas_height_tile_count,
    );
    let mut right = right_tile_border_draws(
        visuals,
        width,
        height,
        border_x0,
        border_y0,
        border_x1,
        border_y1,
        canvas_width_tile_count,
        canvas_height_tile_count,
    );
    let mut tb = top_bottom_tile_border_draws(
        visuals,
        width,
        height,
        border_x0,
        border_y0,
        border_x1,
        border_y1,
        canvas_width_tile_count,
        canvas_height_tile_count,
    );
    r.append(&mut right);
    r.append(&mut tb);
    r
}


pub open spec fn clamp_i(x: int, lo: int, hi: int) -> int {
    if x < lo {
        lo
    } else if x > hi {
        hi
    } else {
        x
    }
}

/// The canvas reaches past the 201 tiles of map border around the layer,
/// where the kill tiles begin.
pub open spec fn kill_border_needed(w: int, h: int, bx0: int, by0: int, bx1: int, by1: int) -> bool {
    bx0 < -201 || by0 < -201 || bx1 >= w + 201 || by1 >= h + 201
}

/// A block of kill tiles, `count_x` per row and `rows` rows, starting at the
/// offset (in tiles).
pub open spec fn kill_tiles(byte_offset: usize, ox: int, oy: int, count_x: int, rows: int) -> BorderDraw {
    BorderDraw::Tiles {
        byte_offset,
        offset_x: ox as i32,
        offset_y: oy as i32,
        dir_x: 1,
        dir_y: 1,
        count_x: count_x as i32,
        count: (count_x * rows) as usize,
    }
}

/// The kill tiles drawn around a `w` by `h` layer whose canvas covers the
/// tiles `[bx0, bx1] x [by0, by1]`: the canvas is cut to 300 tiles around
/// the layer, and the left, top, right and bottom blocks beyond the 201-tile
/// margin are drawn, in that order.
pub open spec fn spec_kill_tile_border_draws(
    kill: STileVisual,
    w: int,
    h: int,
    bx0: int,
    by0: int,
    bx1: int,
    by1: int,
) -> Seq<BorderDraw> {
    if !kill_border_needed(w, h, bx0, by0, bx1, by1) || !kill.draws() {
        Seq::empty()
    } else {
        let x0 = clamp_i(bx0, -300, w + 299);
        let y0 = clamp_i(by0, -300, h + 299);
        let x1 = clamp_i(bx1, -300, w + 299);
        let y1 = clamp_i(by1, -300, h + 299);
        let ox0 = clamp_i(x0, -201, w + 201);
        let ox1 = clamp_i(x1, -201, w + 201);
        let b = kill.offset() as usize;
        opt_draw(x0 < -201, kill_tiles(b, x0, y0, -x0 - 201, y1 - y0)) + opt_draw(
            y0 < -201,
            kill_tiles(b, ox0, y0, ox1 - ox0, -y0 - 201),
        ) + opt_draw(x1 >= w + 201, kill_tiles(b, w + 201, y0, x1 - (w + 201), y1 - y0))
            + opt_draw(y1 >= h + 201, kill_tiles(b, ox0, h + 201, ox1 - ox0, y1 - (h + 201)))
    }
}

/// A block of kill tiles lies beyond the 201-tile margin around a `w` by
/// `h` layer: the left block ends at it, the right one starts after it,
/// the top one ends at it, the bottom one starts after it; each repeats the
/// kill tile row by row.
pub open spec fn kill_block_beyond_margin(d: BorderDraw, w: int, h: int, b: usize) -> bool {
    match d {
        BorderDraw::Tiles { byte_offset, offset_x, offset_y, dir_x, dir_y, count_x, count } => {
            &&& byte_offset == b
            &&& dir_x == 1 && dir_y == 1
            &&& count_x >= 0
            &&& (offset_x + count_x == -201 || offset_x == w + 201 || (offset_y < -201 && count
                == count_x * (-201 - offset_y)) || offset_y == h + 201)
        },
        BorderDraw::Lines { .. } => false,
    }
}

/// Kill tiles are drawn only when the canvas reaches past the 201-tile
/// margin around the layer (and the layer has its kill tile), and every
/// block drawn lies beyond that margin, none overlaps the map or its margin.
pub proof fn law_kill_tiles_beyond_margin(
    kill: STileVisual,
    w: int,
    h: int,
    bx0: int,
    by0: int,
    bx1: int,
    by1: int,
)
    requires
        0 <= w,
        0 <= h,
        99 * (w + 402) <= i32::MAX,
        99 * (h + 599) <= i32::MAX,
        bx0 <= bx1,
        by0 <= by1,
    ensures
        !kill_border_needed(w, h, bx0, by0, bx1, by1) || !kill.draws()
            ==> spec_kill_tile_border_draws(kill, w, h, bx0, by0, bx1, by1).len() == 0,
        forall|i: int|
            0 <= i < spec_kill_tile_border_draws(kill, w, h, bx0, by0, bx1, by1).len()
                ==> kill_block_beyond_margin(
                #[trigger] spec_kill_tile_border_draws(kill, w, h, bx0, by0, bx1, by1)[i],
                w,
                h,
                kill.offset() as usize,
            ),
{
    let r = spec_kill_tile_border_draws(kill, w, h, bx0, by0, bx1, by1);
    if kill_border_needed(w, h, bx0, by0, bx1, by1) && kill.draws() {
        let x0 = clamp_i(bx0, -300, w + 299);
        let y0 = clamp_i(by0, -300, h + 299);
        let x1 = clamp_i(bx1, -300, w + 299);
        let y1 = clamp_i(by1, -300, h + 299);
        let ox0 = clamp_i(x0, -201, w + 201);
        let ox1 = clamp_i(x1, -201, w + 201);
        let b = kill.offset() as usize;
        assert(0 <= y1 - y0 <= h + 599);
        assert(0 <= ox1 - ox0 <= w + 402);
        if y0 < -201 {
            assert((ox1 - ox0) * (-y0 - 201) <= (w + 402) * 99) by (nonlinear_arith)
                requires
                    0 <= ox1 - ox0 <= w + 402,
                    0 <= -y0 - 201 <= 99,
            ;
            assert((ox1 - ox0) * (-y0 - 201) >= 0) by (nonlinear_arith)
                requires
                    0 <= ox1 - ox0,
                    0 <= -y0 - 201,
            ;
        }
        assert forall|i: int| 0 <= i < r.len() implies kill_block_beyond_margin(#[trigger] r[i], w, h, b) by {
        }
    }
}

fn clamp_tile(x: i32, lo: i32, hi: i32) -> (r: i32)
    requires
        lo <= hi,
    ensures
        r == clamp_i(x as int, lo as int, hi as int),
{
    if x < lo {
        lo
    } else if x > hi {
        hi
    } else {
        x
    }
}

fn kill_block(byte_offset: usize, ox: i32, oy: i32, count_x: i32, rows: i32) -> (r: BorderDraw)
    requires
        0 <= count_x,
        0 <= rows,
        count_x * rows <= i32::MAX,
    ensures
        r == kill_tiles(byte_offset, ox as int, oy as int, count_x as int, rows as int),
{
    let count = count_x * rows;
    BorderDraw::Tiles {
        byte_offset,
        offset_x: ox,
        offset_y: oy,
        dir_x: 1,
        dir_y: 1,
        count_x,
        count: count as usize,
    }
}

/// The kill-tile draws around a `width` by `height` tile layer whose canvas
/// covers the tiles `[border_x0, border_x1] x [border_y0, border_y1]`.
pub fn kill_tile_border_draws(
    kill: &STileVisual,
    width: i32,
    height: i32,
    border_x0: i32,
    border_y0: i32,
    border_x1: i32,
    border_y1: i32,
) -> (r: Vec<BorderDraw>)
    requires
        0 <= width,
        0 <= height,
        99 * (width + 402) <= i32::MAX,
        99 * (height + 599) <= i32::MAX,
        border_x0 <= border_x1,
        border_y0 <= border_y1,
    ensures
        r@ == spec_kill_tile_border_draws(
            *kill,
            width as int,
            height as int,
            border_x0 as int,
            border_y0 as int,
            border_x1 as int,
            border_y1 as int,
        ),
{
    let mut r: Vec<BorderDraw> = Vec::new();
    let needed = border_x0 < -201 || border_y0 < -201 || border_x1 >= width + 201 || border_y1
        >= height + 201;
    if !needed || !kill.do_draw() {
        return r;
    }
    let x0 = clamp_tile(border_x0, -300, width + 299);
    let y0 = clamp_tile(border_y0, -300, height + 299);
    let x1 = clamp_tile(border_x1, -300, width + 299);
    let y1 = clamp_tile(border_y1, -300, height + 299);
    let ox0 = clamp_tile(x0, -201, width + 201);
    let ox1 = clamp_tile(x1, -201, width + 201);
    let b = kill.index_buffer_byte_offset();
    let ghost w = width as int;
    let ghost h = height as int;
    proof {
        assert(x0 <= x1 && y0 <= y1 && ox0 <= ox1);
        assert(y1 - y0 <= h + 599);
        assert(ox1 - ox0 <= w + 402);
    }
    if x0 < -201 {
        assert((-x0 - 201) * (y1 - y0) <= 99 * (h + 599)) by (nonlinear_arith)
            requires
                0 <= -x0 - 201 <= 99,
                0 <= y1 - y0 <= h + 599,
        ;
        r.push(kill_block(b, x0, y0, -x0 - 201, y1 - y0));
    }
    if y0 < -201 {
        assert((ox1 - ox0) * (-y0 - 201) <= 99 * (w + 402)) by (nonlinear_arith)
            requires
                0 <= -y0 - 201 <= 99,
                0 <= ox1 - ox0 <= w + 402,
        ;
        r.push(kill_block(b, ox0, y0, ox1 - ox0, -y0 - 201));
    }
    if x1 >= width + 201 {
        assert((x1 - (w + 201)) * (y1 - y0) <= 99 * (h + 599)) by (nonlinear_arith)
            requires
                0 <= x1 - (w + 201) <= 99,
                0 <= y1 - y0 <= h + 599,
        ;
        r.push(kill_block(b, width + 201, y0, x1 - (width + 201), y1 - y0));
    }
    if y1 >= height + 201 {
        assert((ox1 - ox0) * (y1 - (h + 201)) <= 99 * (w + 402)) by (nonlinear_arith)
            requires
                0 <= y1 - (h + 201) <= 99,
                0 <= ox1 - ox0 <= w + 402,
        ;
        r.push(kill_block(b, ox0, height + 201, ox1 - ox0, y1 - (height + 201)));
    }
    proof {
        assert(r@ =~= spec_kill_tile_border_draws(*kill, w, h, border_x0 as int, border_y0 as int, border_x1 as int, border_y1 as int));
    }
    r
}

} // verus!

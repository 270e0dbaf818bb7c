//! The first pass of a map upload: which buffered visuals the tile and quad
//! layers of the map's groups get.
use crate::map_render::{overlay_count, upload_visual_count, GroupLayer, MapLayerType};
use vstd::prelude::*;

verus! {

/// A group of the map: the index of its first layer and its layers.
pub struct MapGroupLayers {
    pub start_layer: usize,
    pub layers: Vec<GroupLayer>,
}

/// A layer of the map, with its group and its index among the map's layers.
#[derive(Copy, Clone)]
pub struct LayerSlot {
    pub group: usize,
    pub layer_index: usize,
    pub layer: GroupLayer,
}

/// A tile visual to prepare: the visual's index, the layer it shows, and
/// which overlay of the layer it is (0 for the layer itself).
#[derive(Copy, Clone, PartialEq, Eq, Structural)]
pub struct TileJob {
    pub visual_index: usize,
    pub group: usize,
    pub layer_index: usize,
    pub overlay: u32,
}

/// A quad visual to prepare.
#[derive(Copy, Clone, PartialEq, Eq, Structural)]
pub struct QuadJob {
    pub visual_index: usize,
    pub group: usize,
    pub layer_index: usize,
}

pub open spec fn group_slots(g: int, start: int, layers: Seq<GroupLayer>) -> Seq<LayerSlot> {
    Seq::new(
        layers.len(),
        |l: int| LayerSlot { group: g as usize, layer_index: (start + l) as usize, layer: layers[l] },
    )
}

/// The layers of the map, group after group.
pub open spec fn map_slots(groups: Seq<MapGroupLayers>) -> Seq<LayerSlot>
    decreases groups.len(),
{
    if groups.len() == 0 {
        Seq::empty()
    } else {
        map_slots(groups.drop_last()) + group_slots(
            groups.len() - 1,
            groups.last().start_layer as int,
            groups.last().layers@,
        )
    }
}

/// Every tile layer gets one visual for itself and one per overlay, numbered
/// in the order of the layers.
pub open spec fn tile_jobs_of(slots: Seq<LayerSlot>) -> Seq<TileJob>
    decreases slots.len(),
{
    if slots.len() == 0 {
        Seq::empty()
    } else {
        let prev = tile_jobs_of(slots.drop_last());
        let s = slots.last();
        if s.layer.layer_type == MapLayerType::Tiles {
            prev + Seq::new(
                upload_visual_count(s.layer.kind) as nat,
                |o: int|
                    TileJob {
                        visual_index: (prev.len() + o) as usize,
                        group: s.group,
                        layer_index: s.layer_index,
                        overlay: o as u32,
                    },
            )
        } else {
            prev
        }
    }
}

/// Every quad layer gets one visual, numbered in the order of the layers.
pub open spec fn quad_jobs_of(slots: Seq<LayerSlot>) -> Seq<QuadJob>
    decreases slots.len(),
{
    if slots.len() == 0 {
        Seq::empty()
    } else {
        let prev = quad_jobs_of(slots.drop_last());
        let s = slots.last();
        if s.layer.layer_type == MapLayerType::Quads {
            prev.push(
                QuadJob {
                    visual_index: prev.len() as usize,
                    group: s.group,
                    layer_index: s.layer_index,
                },
            )
        } else {
            prev
        }
    }
}

pub open spec fn slots_have_game(slots: Seq<LayerSlot>) -> bool {
    exists|i: int| 0 <= i < slots.len() && (#[trigger] slots[i]).layer.kind.is_game
}

/// The layer indices of every group fit in a `usize`.
pub open spec fn groups_fit(groups: Seq<MapGroupLayers>) -> bool {
    forall|g: int|
        0 <= g < groups.len() ==> #[trigger] groups[g].start_layer + groups[g].layers@.len()
            <= usize::MAX
}

/// The visuals to prepare. An upload of the background only prepares
/// nothing at all once the map has a game layer.
pub open spec fn spec_upload_jobs(groups: Seq<MapGroupLayers>, background_only: bool) -> (
    Seq<TileJob>,
    Seq<QuadJob>,
) {
    let slots = map_slots(groups);
    if background_only && slots_have_game(slots) {
        (Seq::empty(), Seq::empty())
    } else {
        (tile_jobs_of(slots), quad_jobs_of(slots))
    }
}

pub proof fn lemma_map_slots_step(groups: Seq<MapGroupLayers>, g: int)
    requires
        0 <= g < groups.len(),
    ensures
        map_slots(groups.take(g + 1)) == map_slots(groups.take(g)) + group_slots(
            g,
            groups[g].start_layer as int,
            groups[g].layers@,
        ),
{
    assert(groups.take(g + 1).drop_last() =~= groups.take(g));
}

pub proof fn lemma_tile_jobs_len(slots: Seq<LayerSlot>)
    ensures
        tile_jobs_of(slots).len() <= 3 * slots.len(),
    decreases slots.len(),
{
    if slots.len() > 0 {
        lemma_tile_jobs_len(slots.drop_last());
    }
}

pub proof fn lemma_quad_jobs_len(slots: Seq<LayerSlot>)
    ensures
        quad_jobs_of(slots).len() <= slots.len(),
    decreases slots.len(),
{
    if slots.len() > 0 {
        lemma_quad_jobs_len(slots.drop_last());
    }
}

pub proof fn lemma_slots_len(groups: Seq<MapGroupLayers>, g: int)
    requires
        0 <= g <= groups.len(),
    ensures
        map_slots(groups.take(g)).len() <= map_slots(groups).len(),
    decreases groups.len() - g,
{
    if g < groups.len() {
        lemma_map_slots_step(groups, g);
        lemma_slots_len(groups, g + 1);
    } else {
        assert(groups.take(g) =~= groups);
    }
}

/// Plans the tile and quad visuals of a map upload (see `spec_upload_jobs`).
pub fn upload_jobs(groups: &Vec<MapGroupLayers>, background_only: bool) -> (r: (
    Vec<TileJob>,
    Vec<QuadJob>,
))
    requires
        groups_fit(groups@),
        3 * map_slots(groups@).len() <= usize::MAX,
    ensures
        (r.0@, r.1@) == spec_upload_jobs(groups@, background_only),
{
    let mut tiles: Vec<TileJob> = Vec::new();
    let mut quads: Vec<QuadJob> = Vec::new();
    let mut g: usize = 0;
    while g < groups.len()
        invariant
            g <= groups@.len(),
            groups_fit(groups@),
            3 * map_slots(groups@).len() <= usize::MAX,
            tiles@ == tile_jobs_of(map_slots(groups@.take(g as int))),
            quads@ == quad_jobs_of(map_slots(groups@.take(g as int))),
            background_only ==> !slots_have_game(map_slots(groups@.take(g as int))),
        decreases groups@.len() - g,
    {
        let group = &groups[g];
        let ghost before = map_slots(groups@.take(g as int));
        let ghost gs = group_slots(g as int, group.start_layer as int, group.layers@);
        proof {
            lemma_map_slots_step(groups@, g as int);
            lemma_slots_len(groups@, g as int + 1);
            assert(groups@[g as int].start_layer + groups@[g as int].layers@.len() <= usize::MAX);
        }
        let mut l: usize = 0;
        while l < group.layers.len()
            invariant
                g < groups@.len(),
                *group == groups@[g as int],
                l <= group.layers@.len(),
                group.start_layer + group.layers@.len() <= usize::MAX,
                before == map_slots(groups@.take(g as int)),
                gs == group_slots(g as int, group.start_layer as int, group.layers@),
                map_slots(groups@.take(g as int + 1)) == before + gs,
                3 * (before + gs).len() <= usize::MAX,
                (before + gs).len() <= map_slots(groups@).len(),
                tiles@ == tile_jobs_of(before + gs.take(l as int)),
                quads@ == quad_jobs_of(before + gs.take(l as int)),
                background_only ==> !slots_have_game(before + gs.take(l as int)),
            decreases group.layers@.len() - l,
        {
            let layer = group.layers[l];
            let layer_index = group.start_layer + l;
            let ghost pre = before + gs.take(l as int);
            let ghost slot = LayerSlot { group: g, layer_index, layer };
            proof {
                assert(gs[l as int] == slot);
                assert(before + gs.take(l as int + 1) =~= pre.push(slot));
                assert(pre.push(slot).drop_last() =~= pre);
                lemma_tile_jobs_len(pre);
                lemma_quad_jobs_len(pre);
            }
            if background_only && layer.kind.is_game {
                proof {
                    let all = map_slots(groups@);
                    let full = before + gs;
                    lemma_map_slots_prefix(groups@, g as int + 1);
                    assert(all.take(full.len() as int) == full);
                    let i = before.len() + l;
                    assert(full[i] == gs[l as int]);
                    assert(all.take(full.len() as int)[i] == all[i]);
                    assert(all[i] == slot);
                    assert(slots_have_game(all));
                }
                return (Vec::new(), Vec::new());
            }
            match layer.layer_type {
                MapLayerType::Tiles => {
                    let n = overlay_count(&layer.kind);
                    let ghost prev = tiles@;
                    let mut o: u32 = 0;
                    while o < n + 1
                        invariant
                            n + 1 == upload_visual_count(layer.kind),
                            o <= n + 1,
                            prev.len() <= 3 * pre.len(),
                            3 * (pre.len() + 1) <= usize::MAX,
                            tiles@ == prev + Seq::new(
                                o as nat,
                                |k: int|
                                    TileJob {
                                        visual_index: (prev.len() + k) as usize,
                                        group: g,
                                        layer_index,
                                        overlay: k as u32,
                                    },
                            ),
                        decreases n + 1 - o,
                    {
                        tiles.push(
                            TileJob { visual_index: tiles.len(), group: g, layer_index, overlay: o },
                        );
                        proof {
                            assert(tiles@ =~= prev + Seq::new(
                                (o + 1) as nat,
                                |k: int|
                                    TileJob {
                                        visual_index: (prev.len() + k) as usize,
                                        group: g,
                                        layer_index,
                                        overlay: k as u32,
                                    },
                            ));
                        }
                        o = o + 1;
                    }
                },
                MapLayerType::Quads => {
                    quads.push(QuadJob { visual_index: quads.len(), group: g, layer_index });
                },
                MapLayerType::Other => {},
            }
            proof {
                assert(background_only ==> !slots_have_game(pre.push(slot))) by {
                    if background_only {
                        assert forall|i: int| 0 <= i < pre.push(slot).len() implies !(#[trigger] pre.push(slot)[i]).layer.kind.is_game by {
                            if i < pre.len() {
                                assert(pre.push(slot)[i] == pre[i]);
                            }
                        }
                    }
                }
            }
            l = l + 1;
        }
        proof {
            assert(gs.take(l as int) =~= gs);
        }
        g = g + 1;
    }
    proof {
        assert(groups@.take(g as int) =~= groups@);
    }
    (tiles, quads)
}

proof fn lemma_map_slots_prefix(groups: Seq<MapGroupLayers>, g: int)
    requires
        0 <= g <= groups.len(),
    ensures
        map_slots(groups).take(map_slots(groups.take(g)).len() as int) == map_slots(groups.take(g)),
    decreases groups.len() - g,
{
    if g < groups.len() {
        lemma_map_slots_prefix(groups, g + 1);
        lemma_map_slots_step(groups, g);
        let a = map_slots(groups.take(g));
        let b = map_slots(groups.take(g + 1));
        assert(b.take(a.len() as int) =~= a);
        lemma_slots_len(groups, g + 1);
        assert(map_slots(groups).take(a.len() as int) =~= map_slots(groups).take(b.len() as int).take(a.len() as int));
    } else {
        assert(groups.take(g) =~= groups);
        assert(map_slots(groups).take(map_slots(groups).len() as int) =~= map_slots(groups));
    }
}


/// Visual `k` of the plan is the `k`-th entry: the prepared visuals can be
/// stored in the order of the plan and found again by their index.
pub proof fn law_upload_visual_indices_in_order(slots: Seq<LayerSlot>)
    requires
        3 * slots.len() <= usize::MAX,
    ensures
        forall|k: int|
            0 <= k < tile_jobs_of(slots).len() ==> #[trigger] tile_jobs_of(slots)[k].visual_index
                == k,
        forall|k: int|
            0 <= k < quad_jobs_of(slots).len() ==> #[trigger] quad_jobs_of(slots)[k].visual_index
                == k,
    decreases slots.len(),
{
    if slots.len() > 0 {
        let pre = slots.drop_last();
        law_upload_visual_indices_in_order(pre);
        lemma_tile_jobs_len(pre);
        lemma_quad_jobs_len(pre);
        let t = tile_jobs_of(slots);
        let q = quad_jobs_of(slots);
        let tp = tile_jobs_of(pre);
        let qp = quad_jobs_of(pre);
        assert forall|k: int| 0 <= k < t.len() implies #[trigger] t[k].visual_index == k by {
            if k < tp.len() {
                assert(t[k] == tp[k]);
            }
        }
        assert forall|k: int| 0 <= k < q.len() implies #[trigger] q[k].visual_index == k by {
            if k < qp.len() {
                assert(q[k] == qp[k]);
            }
        }
    }
}


/// Some layer of this type is drawn with image `i`.
pub open spec fn image_used_by(slots: Seq<LayerSlot>, layer_type: MapLayerType, i: int) -> bool {
    exists|j: int|
        0 <= j < slots.len() && (#[trigger] slots[j]).layer.layer_type == layer_type
            && slots[j].layer.image as int == i
}

/// The use of each map image: by a tile layer (it then also needs a 3D
/// texture), by a quad layer. Image indices outside the map's images are
/// ignored.
pub fn image_usage(groups: &Vec<MapGroupLayers>, image_count: usize) -> (r: Vec<(bool, bool)>)
    requires
        groups_fit(groups@),
    ensures
        r@.len() == image_count,
        forall|i: int|
            0 <= i < image_count ==> (#[trigger] r@[i]).0 == image_used_by(
                map_slots(groups@),
                MapLayerType::Tiles,
                i,
            ) && r@[i].1 == image_used_by(map_slots(groups@), MapLayerType::Quads, i),
{
    let mut flags: Vec<(bool, bool)> = Vec::new();
    let mut k: usize = 0;
    while k < image_count
        invariant
            k <= image_count,
            flags@.len() == k,
            forall|i: int| 0 <= i < k ==> #[trigger] flags@[i] == (false, false),
        decreases image_count - k,
    {
        flags.push((false, false));
        k = k + 1;
    }
    let mut g: usize = 0;
    proof {
        assert(groups@.take(0) =~= Seq::<MapGroupLayers>::empty());
    }
    while g < groups.len()
        invariant
            g <= groups@.len(),
            groups_fit(groups@),
            flags@.len() == image_count,
            forall|i: int|
                0 <= i < image_count ==> (#[trigger] flags@[i]).0 == image_used_by(
                    map_slots(groups@.take(g as int)),
                    MapLayerType::Tiles,
                    i,
                ) && flags@[i].1 == image_used_by(
                    map_slots(groups@.take(g as int)),
                    MapLayerType::Quads,
                    i,
                ),
        decreases groups@.len() - g,
    {
        let group = &groups[g];
        let ghost before = map_slots(groups@.take(g as int));
        let ghost gs = group_slots(g as int, group.start_layer as int, group.layers@);
        proof {
            lemma_map_slots_step(groups@, g as int);
            assert(before + gs.take(0) =~= before);
        }
        let mut l: usize = 0;
        while l < group.layers.len()
            invariant
                g < groups@.len(),
                *group == groups@[g as int],
                l <= group.layers@.len(),
                gs == group_slots(g as int, group.start_layer as int, group.layers@),
                map_slots(groups@.take(g as int + 1)) == before + gs,
                flags@.len() == image_count,
                forall|i: int|
                    0 <= i < image_count ==> (#[trigger] flags@[i]).0 == image_used_by(
                        before + gs.take(l as int),
                        MapLayerType::Tiles,
                        i,
                    ) && flags@[i].1 == image_used_by(
                        before + gs.take(l as int),
                        MapLayerType::Quads,
                        i,
                    ),
            decreases group.layers@.len() - l,
        {
            let layer = group.layers[l];
            let ghost pre = before + gs.take(l as int);
            let ghost post = before + gs.take(l as int + 1);
            proof {
                assert(post =~= pre.push(gs[l as int]));
                assert(gs[l as int].layer == layer);
            }
            let ghost old_flags = flags@;
            if layer.image >= 0 && (layer.image as usize) < flags.len() {
                let idx = layer.image as usize;
                let cur = flags[idx];
                match layer.layer_type {
                    MapLayerType::Tiles => {
                        flags.set(idx, (true, cur.1));
                    },
                    MapLayerType::Quads => {
                        flags.set(idx, (cur.0, true));
                    },
                    MapLayerType::Other => {},
                }
            }
            proof {
                assert forall|i: int| 0 <= i < image_count implies (#[trigger] flags@[i]).0
                    == image_used_by(post, MapLayerType::Tiles, i) && flags@[i].1 == image_used_by(
                    post,
                    MapLayerType::Quads,
                    i,
                ) by {
                    let n = pre.len() as int;
                    assert(post[n] == gs[l as int]);
                    if image_used_by(pre, MapLayerType::Tiles, i) {
                        let j = choose|j: int|
                            0 <= j < pre.len() && (#[trigger] pre[j]).layer.layer_type
                                == MapLayerType::Tiles && pre[j].layer.image as int == i;
                        assert(post[j] == pre[j]);
                    }
                    if image_used_by(pre, MapLayerType::Quads, i) {
                        let j = choose|j: int|
                            0 <= j < pre.len() && (#[trigger] pre[j]).layer.layer_type
                                == MapLayerType::Quads && pre[j].layer.image as int == i;
                        assert(post[j] == pre[j]);
                    }
                    if image_used_by(post, MapLayerType::Tiles, i) {
                        let j = choose|j: int|
                            0 <= j < post.len() && (#[trigger] post[j]).layer.layer_type
                                == MapLayerType::Tiles && post[j].layer.image as int == i;
                        if j < n {
                            assert(post[j] == pre[j]);
                        }
                    }
                    if image_used_by(post, MapLayerType::Quads, i) {
                        let j = choose|j: int|
                            0 <= j < post.len() && (#[trigger] post[j]).layer.layer_type
                                == MapLayerType::Quads && post[j].layer.image as int == i;
                        if j < n {
                            assert(post[j] == pre[j]);
                        }
                    }
                }
            }
            l = l + 1;
        }
        proof {
            assert(gs.take(l as int) =~= gs);
        }
        g = g + 1;
    }
    proof {
        assert(groups@.take(g as int) =~= groups@);
    }
    flags
}

/// An image used by a tile layer is cut into a 16 by 16 grid of tiles for
/// its 3D texture; it is resized first when a side is empty or not a
/// multiple of 16.
pub fn tile_image_needs_resize(width: usize, height: usize) -> (r: bool)
    ensures
        r == (width == 0 || width % 16 != 0 || height == 0 || height % 16 != 0),
{
    width == 0 || width % 16 != 0 || height == 0 || height % 16 != 0
}

} // verus!

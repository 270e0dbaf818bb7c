//! The walk of the map renderer over the map's groups: which layers it
//! draws, and with which buffered visual, also where whole groups are
//! clipped away.
use crate::map_render::{
    render_visual_count, tile_layer_and_overlay_count, upload_visual_count, single_kind,
    GroupLayer, LayerRenderConfig, LayerStep, MapLayerType, RenderMap, RenderMapTypes,
};
use crate::upload_plan::{
    group_slots, groups_fit, lemma_map_slots_step, lemma_quad_jobs_len, lemma_slots_len,
    lemma_tile_jobs_len, map_slots, quad_jobs_of, tile_jobs_of, LayerSlot, MapGroupLayers,
};
use vstd::prelude::*;

verus! {

/// A draw of the map renderer: a tile layer with the buffered tile visual
/// it uses (and, for the game layer, the kill tiles around it), or a quad
/// layer with its buffered quad visual.
#[derive(Copy, Clone, Debug, PartialEq, Eq, Structural)]
pub enum LayerDraw {
    Tiles { group: usize, layer_index: usize, visual_index: usize, kill_border: bool },
    Quads { group: usize, layer_index: usize, visual_index: usize },
}

/// The renderer's state after some layers: the tile-visual and quad-visual
/// counters, whether the game layer was passed, whether drawing stopped,
/// and the draws so far.
pub type WalkState = (int, int, bool, bool, Seq<LayerDraw>);

pub open spec fn walk_start() -> WalkState {
    (0, 0, false, false, Seq::empty())
}

impl RenderMap {
    /// One layer: a layer of a group that is clipped away only counts its
    /// visuals; any other layer takes the step `spec_layer_step` decides and
    /// is drawn with the last visual the counters reached.
    pub open spec fn walk_step(
        &self,
        st: WalkState,
        slot: LayerSlot,
        clipped: bool,
        config: LayerRenderConfig,
    ) -> WalkState {
        let (tiles, quads, passed, stopped, draws) = st;
        let layer = slot.layer;
        let passed2 = passed || layer.kind.is_game;
        if stopped {
            st
        } else if clipped {
            (
                tiles + if layer.layer_type == MapLayerType::Tiles {
                    render_visual_count(layer.kind) as int
                } else {
                    0
                },
                quads + if layer.layer_type == MapLayerType::Quads {
                    1int
                } else {
                    0
                },
                passed2,
                false,
                draws,
            )
        } else {
            match self.spec_layer_step(layer, passed, config) {
                LayerStep::Stop => (tiles, quads, passed2, true, draws),
                LayerStep::Next { tile_visuals, quad_visuals, draw } => {
                    let t = tiles + tile_visuals;
                    let q = quads + quad_visuals;
                    let d = if draw && layer.layer_type == MapLayerType::Tiles {
                        draws.push(
                            LayerDraw::Tiles {
                                group: slot.group,
                                layer_index: slot.layer_index,
                                visual_index: (t - 1) as usize,
                                kill_border: layer.kind.is_game,
                            },
                        )
                    } else if draw && layer.layer_type == MapLayerType::Quads {
                        draws.push(
                            LayerDraw::Quads {
                                group: slot.group,
                                layer_index: slot.layer_index,
                                visual_index: (q - 1) as usize,
                            },
                        )
                    } else {
                        draws
                    };
                    (t, q, passed2, false, d)
                },
            }
        }
    }

    /// The renderer's state after the layers `slots`, `clipped[g]` telling
    /// whether group `g` is clipped away.
    pub open spec fn walk(
        &self,
        slots: Seq<LayerSlot>,
        clipped: Seq<bool>,
        config: LayerRenderConfig,
    ) -> WalkState
        decreases slots.len(),
    {
        if slots.len() == 0 {
            walk_start()
        } else {
            self.walk_step(
                self.walk(slots.drop_last(), clipped, config),
                slots.last(),
                clipped[slots.last().group as int],
                config,
            )
        }
    }

    /// The draws of the map, group by group and layer by layer. A group is
    /// clipped away (`clipped[g]`) when it uses clipping and its clip
    /// rectangle lies off the screen; its layers are then only counted.
    /// Drawing stops where `layer_step` says so (a background map at the
    /// game layer).
    pub fn render_draws(
        &self,
        groups: &Vec<MapGroupLayers>,
        clipped: &Vec<bool>,
        config: &LayerRenderConfig,
    ) -> (r: Vec<LayerDraw>)
        requires
            groups_fit(groups@),
            clipped@.len() == groups@.len(),
            3 * map_slots(groups@).len() <= usize::MAX,
            entity_kinds_on_tiles(map_slots(groups@)),
        ensures
            r@ == self.walk(map_slots(groups@), clipped@, *config).4,
    {
        let mut draws: Vec<LayerDraw> = Vec::new();
        let mut tiles: usize = 0;
        let mut quads: usize = 0;
        let mut passed = false;
        let mut g: usize = 0;
        while g < groups.len()
            invariant
                g <= groups@.len(),
                groups_fit(groups@),
                clipped@.len() == groups@.len(),
                3 * map_slots(groups@).len() <= usize::MAX,
                entity_kinds_on_tiles(map_slots(groups@)),
                self.walk(map_slots(groups@.take(g as int)), clipped@, *config) == (
                    tiles as int,
                    quads as int,
                    passed,
                    false,
                    draws@,
                ),
                tiles <= 3 * map_slots(groups@.take(g as int)).len(),
                quads <= map_slots(groups@.take(g as int)).len(),
                map_slots(groups@.take(g as int)).len() <= map_slots(groups@).len(),
            decreases groups@.len() - g,
        {
            let group = &groups[g];
            let is_clipped = clipped[g];
            let ghost before = map_slots(groups@.take(g as int));
            let ghost gs = group_slots(g as int, group.start_layer as int, group.layers@);
            proof {
                lemma_map_slots_step(groups@, g as int);
                lemma_slots_len(groups@, g as int + 1);
                assert(groups@[g as int].start_layer + groups@[g as int].layers@.len() <= usize::MAX);
                lemma_entity_kinds_prefix(map_slots(groups@), (before + gs).len() as int);
                lemma_map_slots_prefix_of(groups@, g as int + 1);
            }
            let mut l: usize = 0;
            while l < group.layers.len()
                invariant
                    g < groups@.len(),
                    *group == groups@[g as int],
                    clipped@.len() == groups@.len(),
                    is_clipped == clipped@[g as int],
                    l <= group.layers@.len(),
                    group.start_layer + group.layers@.len() <= usize::MAX,
                    gs == group_slots(g as int, group.start_layer as int, group.layers@),
                    3 * (before + gs).len() <= usize::MAX,
                    entity_kinds_on_tiles(before + gs),
                    (before + gs).len() <= map_slots(groups@).len(),
                    map_slots(groups@).take((before + gs).len() as int) == before + gs,
                    self.walk(before + gs.take(l as int), clipped@, *config) == (
                        tiles as int,
                        quads as int,
                        passed,
                        false,
                        draws@,
                    ),
                    tiles <= 3 * (before + gs.take(l as int)).len(),
                    quads <= (before + gs.take(l as int)).len(),
                decreases group.layers@.len() - l,
            {
                let layer = group.layers[l];
                let layer_index = group.start_layer + l;
                let ghost pre = before + gs.take(l as int);
                let ghost slot = LayerSlot { group: g, layer_index, layer };
                proof {
                    assert(gs[l as int] == slot);
                    assert(before + gs.take(l as int + 1) =~= pre.push(slot));
                    assert(pre.push(slot).drop_last() =~= pre);
                    assert((before + gs)[pre.len() as int] == slot);
                }
                if is_clipped {
                    if layer.kind.is_game {
                        passed = true;
                    }
                    match layer.layer_type {
                        MapLayerType::Tiles => {
                            tiles = tiles + tile_layer_and_overlay_count(&layer.kind);
                        },
                        MapLayerType::Quads => {
                            quads = quads + 1;
                        },
                        MapLayerType::Other => {},
                    }
                } else {
                    let step = self.layer_step(&layer, &mut passed, config);
                    match step {
                        LayerStep::Stop => {
                            proof {
                                let all = map_slots(groups@);
                                assert(all.take(pre.len() as int + 1) =~= (before + gs).take(pre.len() as int + 1));
                                assert((before + gs).take(pre.len() as int + 1) =~= pre.push(slot));
                                lemma_walk_stopped_tail(
                                    *self,
                                    map_slots(groups@),
                                    clipped@,
                                    *config,
                                    pre.len() as int + 1,
                                );
                            }
                            return draws;
                        },
                        LayerStep::Next { tile_visuals, quad_visuals, draw } => {
                            tiles = tiles + tile_visuals;
                            quads = quads + quad_visuals;
                            if draw {
                                match layer.layer_type {
                                    MapLayerType::Tiles => {
                                        draws.push(
                                            LayerDraw::Tiles {
                                                group: g,
                                                layer_index,
                                                visual_index: tiles - 1,
                                                kill_border: layer.kind.is_game,
                                            },
                                        );
                                    },
                                    MapLayerType::Quads => {
                                        draws.push(
                                            LayerDraw::Quads {
                                                group: g,
                                                layer_index,
                                                visual_index: quads - 1,
                                            },
                                        );
                                    },
                                    MapLayerType::Other => {},
                                }
                            }
                        },
                    }
                }
                l = l + 1;
            }
            proof {
                assert(gs.take(l as int) =~= gs);
            }
            g = g + 1;
        }
        proof {
            assert(groups@.take(g as int) =~= groups@);
        }
        draws
    }
}

/// Only tile layers are entity layers (game, front, switch, tele, speedup,
/// tune), as in a map.
pub open spec fn entity_kinds_on_tiles(slots: Seq<LayerSlot>) -> bool {
    forall|i: int|
        0 <= i < slots.len() && (#[trigger] slots[i]).layer.layer_type != MapLayerType::Tiles
            ==> !slots[i].layer.kind.is_entity()
}

/// Every tile layer has a single kind.
pub open spec fn tile_kinds_single(slots: Seq<LayerSlot>) -> bool {
    forall|i: int|
        0 <= i < slots.len() && (#[trigger] slots[i]).layer.layer_type == MapLayerType::Tiles
            ==> single_kind(slots[i].layer.kind)
}

proof fn lemma_entity_kinds_prefix(slots: Seq<LayerSlot>, n: int)
    requires
        0 <= n <= slots.len(),
        entity_kinds_on_tiles(slots),
    ensures
        entity_kinds_on_tiles(slots.take(n)),
{
    assert forall|i: int|
        0 <= i < slots.take(n).len() && (#[trigger] slots.take(n)[i]).layer.layer_type
            != MapLayerType::Tiles implies !slots.take(n)[i].layer.kind.is_entity() by {
        assert(slots.take(n)[i] == slots[i]);
    }
}

proof fn lemma_map_slots_prefix_of(groups: Seq<MapGroupLayers>, g: int)
    requires
        0 <= g <= groups.len(),
    ensures
        map_slots(groups).take(map_slots(groups.take(g)).len() as int) == map_slots(groups.take(g)),
    decreases groups.len() - g,
{
    if g < groups.len() {
        lemma_map_slots_prefix_of(groups, g + 1);
        lemma_map_slots_step(groups, g);
        let a = map_slots(groups.take(g));
        let b = map_slots(groups.take(g + 1));
        assert(b.take(a.len() as int) =~= a);
        lemma_slots_len(groups, g + 1);
        assert(map_slots(groups).take(a.len() as int) =~= map_slots(groups).take(
            b.len() as int,
        ).take(a.len() as int));
    } else {
        assert(groups.take(g) =~= groups);
        assert(map_slots(groups).take(map_slots(groups).len() as int) =~= map_slots(groups));
    }
}

/// Once stopped, the walk stays stopped and draws nothing more.
proof fn lemma_walk_stopped_tail(
    m: RenderMap,
    slots: Seq<LayerSlot>,
    clipped: Seq<bool>,
    config: LayerRenderConfig,
    n: int,
)
    requires
        0 <= n <= slots.len(),
        m.walk(slots.take(n), clipped, config).3,
    ensures
        m.walk(slots, clipped, config) == m.walk(slots.take(n), clipped, config),
    decreases slots.len() - n,
{
    if n < slots.len() {
        assert(slots.take(n + 1).drop_last() =~= slots.take(n));
        lemma_walk_stopped_tail(m, slots, clipped, config, n + 1);
    } else {
        assert(slots.take(n) =~= slots);
    }
}

/// Layer `layer_index` of group `group` is one of `slots`, and not an
/// entity layer.
pub open spec fn drawn_design_layer(slots: Seq<LayerSlot>, group: usize, layer_index: usize) -> bool {
    exists|p: int|
        0 <= p < slots.len() && (#[trigger] slots[p]).group == group && slots[p].layer_index
            == layer_index && !slots[p].layer.kind.is_entity()
}

/// The draw uses the visual the upload plan prepared for its layer.
pub open spec fn draw_uses_planned_visual(slots: Seq<LayerSlot>, d: LayerDraw) -> bool {
    match d {
        LayerDraw::Tiles { group, layer_index, visual_index, kill_border } => {
            &&& !kill_border
            &&& visual_index < tile_jobs_of(slots).len()
            &&& tile_jobs_of(slots)[visual_index as int].group == group
            &&& tile_jobs_of(slots)[visual_index as int].layer_index == layer_index
            &&& drawn_design_layer(slots, group, layer_index)
        },
        LayerDraw::Quads { group, layer_index, visual_index } => {
            &&& visual_index < quad_jobs_of(slots).len()
            &&& quad_jobs_of(slots)[visual_index as int].group == group
            &&& quad_jobs_of(slots)[visual_index as int].layer_index == layer_index
            &&& drawn_design_layer(slots, group, layer_index)
        },
    }
}

/// A full-design map draws no entity layer, and every layer it draws uses
/// the visual that the upload plan gave that layer, also when whole groups
/// are clipped away: its counters always equal the numbers of visuals the
/// upload prepared for the layers so far (every tile layer has a single
/// kind, and only tile layers are entity layers, as in a map).
pub proof fn law_full_design_draws_use_uploaded_visuals(
    m: RenderMap,
    slots: Seq<LayerSlot>,
    clipped: Seq<bool>,
    config: LayerRenderConfig,
)
    requires
        m.map_type == RenderMapTypes::FullDesign,
        entity_kinds_on_tiles(slots),
        tile_kinds_single(slots),
        3 * slots.len() <= usize::MAX,
    ensures
        m.walk(slots, clipped, config).0 == tile_jobs_of(slots).len(),
        m.walk(slots, clipped, config).1 == quad_jobs_of(slots).len(),
        !m.walk(slots, clipped, config).3,
        forall|i: int|
            0 <= i < m.walk(slots, clipped, config).4.len() ==> draw_uses_planned_visual(
                slots,
                #[trigger] m.walk(slots, clipped, config).4[i],
            ),
    decreases slots.len(),
{
    if slots.len() > 0 {
        let pre = slots.drop_last();
        let s = slots.last();
        assert forall|i: int|
            0 <= i < pre.len() && (#[trigger] pre[i]).layer.layer_type != MapLayerType::Tiles
                implies !pre[i].layer.kind.is_entity() by {
            assert(pre[i] == slots[i]);
        }
        assert forall|i: int|
            0 <= i < pre.len() && (#[trigger] pre[i]).layer.layer_type == MapLayerType::Tiles
                implies single_kind(pre[i].layer.kind) by {
            assert(pre[i] == slots[i]);
        }
        law_full_design_draws_use_uploaded_visuals(m, pre, clipped, config);
        lemma_tile_jobs_len(slots);
        lemma_quad_jobs_len(slots);
        assert(slots[slots.len() - 1] == s);
        let tp = tile_jobs_of(pre);
        let qp = quad_jobs_of(pre);
        let t = tile_jobs_of(slots);
        let q = quad_jobs_of(slots);
        assert(forall|k: int| 0 <= k < tp.len() ==> t[k] == tp[k]);
        assert(forall|k: int| 0 <= k < qp.len() ==> q[k] == qp[k]);
        let sp = m.walk(pre, clipped, config);
        let st = m.walk(slots, clipped, config);
        assert forall|i: int| 0 <= i < sp.4.len() implies draw_uses_planned_visual(
            slots,
            #[trigger] st.4[i],
        ) by {
            assert(st.4[i] == sp.4[i]);
            assert(draw_uses_planned_visual(pre, sp.4[i]));
            let (g, li) = match sp.4[i] {
                LayerDraw::Tiles { group, layer_index, .. } => (group, layer_index),
                LayerDraw::Quads { group, layer_index, .. } => (group, layer_index),
            };
            let p = choose|p: int|
                0 <= p < pre.len() && (#[trigger] pre[p]).group == g && pre[p].layer_index == li
                    && !pre[p].layer.kind.is_entity();
            assert(slots[p] == pre[p]);
        }
        if st.4.len() > sp.4.len() {
            let i = sp.4.len() as int;
            let p = pre.len() as int;
            assert(slots[p] == s);
            assert(st == m.walk_step(sp, s, clipped[s.group as int], config));
            assert(!clipped[s.group as int]);
            assert(!sp.3);
            assert(!s.layer.kind.is_entity());
            if s.layer.layer_type == MapLayerType::Tiles {
                assert(single_kind(s.layer.kind));
                assert(render_visual_count(s.layer.kind) == upload_visual_count(s.layer.kind));
                let n = upload_visual_count(s.layer.kind) as int;
                assert(t.len() == tp.len() + n);
                assert(t[tp.len() + n - 1].layer_index == s.layer_index);
                assert(t[tp.len() + n - 1].group == s.group);
                assert(drawn_design_layer(slots, s.group, s.layer_index));
                assert(st.4[i] == LayerDraw::Tiles {
                    group: s.group,
                    layer_index: s.layer_index,
                    visual_index: (tp.len() + n - 1) as usize,
                    kill_border: false,
                });
            } else {
                assert(s.layer.layer_type == MapLayerType::Quads);
                assert(q[qp.len() as int].layer_index == s.layer_index);
                assert(drawn_design_layer(slots, s.group, s.layer_index));
                assert(st.4[i] == LayerDraw::Quads {
                    group: s.group,
                    layer_index: s.layer_index,
                    visual_index: qp.len() as usize,
                });
            }
            assert(draw_uses_planned_visual(slots, st.4[i]));
        }
        assert forall|i: int| 0 <= i < st.4.len() implies draw_uses_planned_visual(
            slots,
            #[trigger] st.4[i],
        ) by {
            if i < sp.4.len() {
                assert(draw_uses_planned_visual(slots, st.4[i]));
            }
        }
    }
}

} // verus!

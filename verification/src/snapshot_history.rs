//! The client's side of snapshot acknowledgement: which snapshots of the
//! server are taken, which are kept as bases for difference-encoded ones,
//! and what the acknowledgement says.
use std::collections::BTreeMap;
use vstd::prelude::*;

verus! {

/// Most snapshots kept as bases for differences.
pub const MAX_DIFF_BASES: usize = 10;

/// The snapshots received so far: the id of the newest one handled, and the
/// snapshots kept by id so that later ones can be sent as differences to
/// them.
pub struct SnapshotHistory {
    pub handled_snap_id: Option<u64>,
    pub prev_snapshots: BTreeMap<u64, Vec<u8>>,
}

/// `BTreeMap::first_key_value`, keeping the key: as its documentation says,
/// the entry with the smallest key, none for an empty map.
#[verifier::external_body]
pub(crate) fn first_key<V>(m: &BTreeMap<u64, V>) -> (r: Option<u64>)
    ensures
        r is None <==> m@.dom() == Set::<u64>::empty(),
        r matches Some(k) ==> m@.contains_key(k) && forall|j: u64| #[trigger]
            m@.contains_key(j) ==> k <= j,
{
    m.first_key_value().map(|(k, _)| *k)
}

/// A snapshot is taken unless one at least as new was handled before.
pub open spec fn is_new_snapshot(handled: Option<u64>, snap_id: u64) -> bool {
    !(handled matches Some(h) && h >= snap_id)
}

/// The kept snapshots without those older than the base `diff_id` (the
/// server has stopped using them).
pub open spec fn drop_older(m: Map<u64, Vec<u8>>, diff_id: Option<u64>) -> Map<u64, Vec<u8>> {
    match diff_id {
        Some(d) => m.restrict(m.dom().filter(|k: u64| k >= d)),
        None => m,
    }
}

impl SnapshotHistory {
    pub fn new() -> (r: SnapshotHistory)
        ensures
            r.handled_snap_id is None,
            r.prev_snapshots@ == Map::<u64, Vec<u8>>::empty(),
    {
        SnapshotHistory { handled_snap_id: None, prev_snapshots: BTreeMap::new() }
    }

    /// The snapshot a difference was taken against, if it is still kept.
    pub fn diff_base(&self, diff_id: u64) -> (r: Option<&Vec<u8>>)
        ensures
            r is Some <==> self.prev_snapshots@.contains_key(diff_id),
            r matches Some(v) ==> *v == self.prev_snapshots@[diff_id],
    {
        self.prev_snapshots.get(&diff_id)
    }

    /// Takes snapshot `snap_id` of the server (rebuilt from the base
    /// `diff_id` if it was sent as a difference). An old snapshot is
    /// ignored (`None`). A new one drops the kept snapshots older than its
    /// base, is kept itself when the server offered it as a base (`as_diff`)
    /// and fewer than ten are kept, and is acknowledged with whether it was
    /// kept.
    pub fn accept_snapshot(
        &mut self,
        snap_id: u64,
        diff_id: Option<u64>,
        as_diff: bool,
        snapshot: Vec<u8>,
    ) -> (ack: Option<bool>)
        ensures
            !is_new_snapshot(old(self).handled_snap_id, snap_id) ==> ack is None
                && final(self).handled_snap_id == old(self).handled_snap_id
                && final(self).prev_snapshots@ == old(self).prev_snapshots@,
            is_new_snapshot(old(self).handled_snap_id, snap_id) ==> {
                let kept = drop_older(old(self).prev_snapshots@, diff_id);
                let as_base = as_diff && kept.len() < MAX_DIFF_BASES;
                &&& ack == Some(as_base)
                &&& final(self).handled_snap_id == Some(snap_id)
                &&& final(self).prev_snapshots@ == if as_base {
                    kept.insert(snap_id, snapshot)
                } else {
                    kept
                }
            },
            old(self).handled_snap_id matches Some(h) ==> (final(self).handled_snap_id matches Some(
                h2,
            ) && h2 >= h),
            old(self).prev_snapshots@.len() <= MAX_DIFF_BASES ==> final(self).prev_snapshots@.len()
                <= MAX_DIFF_BASES,
    {
        let is_new = match self.handled_snap_id {
            Some(h) => !(h >= snap_id),
            None => true,
        };
        if !is_new {
            return None;
        }
        self.handled_snap_id = Some(snap_id);
        let ghost start = self.prev_snapshots@;
        if let Some(d) = diff_id {
            let mut done = false;
            while !done
                invariant
                    self.handled_snap_id == Some(snap_id),
                    forall|k: u64| #[trigger]
                        self.prev_snapshots@.contains_key(k) ==> start.contains_key(k)
                            && self.prev_snapshots@[k] == start[k],
                    forall|k: u64|
                        start.contains_key(k) && k >= d ==> #[trigger] self.prev_snapshots@.contains_key(k),
                    done ==> forall|k: u64| #[trigger]
                        self.prev_snapshots@.contains_key(k) ==> k >= d,
                decreases self.prev_snapshots@.dom().len() + if done {
                    0int
                } else {
                    1int
                },
            {
                match first_key(&self.prev_snapshots) {
                    Some(k) => {
                        if k < d {
                            let ghost before = self.prev_snapshots@;
                            self.prev_snapshots.remove(&k);
                            proof {
                                assert(before.dom().contains(k));
                                assert(self.prev_snapshots@.dom() =~= before.dom().remove(k));
                            }
                        } else {
                            done = true;
                        }
                    },
                    None => {
                        done = true;
                    },
                }
            }
            proof {
                assert(self.prev_snapshots@ =~= drop_older(start, diff_id));
            }
        }
        proof {
            vstd::set_lib::lemma_len_subset(self.prev_snapshots@.dom(), start.dom());
        }
        let as_base = as_diff && self.prev_snapshots.len() < MAX_DIFF_BASES;
        if as_base {
            self.prev_snapshots.insert(snap_id, snapshot);
        }
        Some(as_base)
    }
}

/// What becomes of a snapshot message of the server.
#[derive(Copy, Clone, Debug, PartialEq, Eq, Structural)]
pub enum SnapshotStep {
    /// The message is dropped, nothing changes: its base is no longer kept,
    /// or the difference could not be applied to it.
    Dropped,
    /// A snapshot no newer than one handled before: only the demo recorder
    /// and the prediction timing see it, no acknowledgement is sent.
    Old,
    /// A new snapshot: the game state is rebuilt from it, it is acknowledged
    /// (`ack_as_base`: kept as a base), the predicted tick becomes
    /// `predicted_tick`, and the game is ticked `catch_up_ticks` times from
    /// the server's tick back up to the predicted one.
    Taken { ack_as_base: bool, predicted_tick: u64, catch_up_ticks: u64 },
}

/// A message whose base `diff_id` is no longer kept cannot be rebuilt.
pub open spec fn base_kept(m: Map<u64, Vec<u8>>, diff_id: Option<u64>) -> bool {
    match diff_id {
        Some(d) => m.contains_key(d),
        None => true,
    }
}

impl SnapshotHistory {
    /// Handles snapshot `snap_id` of the server at the server's tick
    /// `server_tick`, while the client has predicted up to `predicted_tick`.
    /// `snapshot` is the full snapshot: the message's own, or the one
    /// rebuilt from the base `diff_id` (`None` when that failed). A
    /// message whose base is not kept or could not be rebuilt is dropped; an
    /// old snapshot changes nothing here; a new one is taken as
    /// `accept_snapshot` says, the prediction keeps the later of both ticks,
    /// and the game runs again the ticks it had predicted past the server's.
    pub fn handle_snapshot(
        &mut self,
        snap_id: u64,
        diff_id: Option<u64>,
        as_diff: bool,
        snapshot: Option<Vec<u8>>,
        server_tick: u64,
        predicted_tick: u64,
    ) -> (r: SnapshotStep)
        ensures
            !base_kept(old(self).prev_snapshots@, diff_id) || snapshot is None ==> r
                == SnapshotStep::Dropped && final(self).handled_snap_id == old(self).handled_snap_id
                && final(self).prev_snapshots@ == old(self).prev_snapshots@,
            base_kept(old(self).prev_snapshots@, diff_id) && snapshot is Some && !is_new_snapshot(
                old(self).handled_snap_id,
                snap_id,
            ) ==> r == SnapshotStep::Old && final(self).handled_snap_id == old(self).handled_snap_id
                && final(self).prev_snapshots@ == old(self).prev_snapshots@,
            base_kept(old(self).prev_snapshots@, diff_id) && snapshot is Some && is_new_snapshot(
                old(self).handled_snap_id,
                snap_id,
            ) ==> {
                let kept = drop_older(old(self).prev_snapshots@, diff_id);
                let as_base = as_diff && kept.len() < MAX_DIFF_BASES;
                &&& r == SnapshotStep::Taken {
                    ack_as_base: as_base,
                    predicted_tick: if server_tick > predicted_tick {
                        server_tick
                    } else {
                        predicted_tick
                    },
                    catch_up_ticks: if predicted_tick > server_tick {
                        (predicted_tick - server_tick) as u64
                    } else {
                        0
                    },
                }
                &&& final(self).handled_snap_id == Some(snap_id)
                &&& final(self).prev_snapshots@ == if as_base {
                    kept.insert(snap_id, snapshot.unwrap())
                } else {
                    kept
                }
            },
            old(self).handled_snap_id matches Some(h) ==> (final(self).handled_snap_id matches Some(
                h2,
            ) && h2 >= h),
            old(self).prev_snapshots@.len() <= MAX_DIFF_BASES ==> final(self).prev_snapshots@.len()
                <= MAX_DIFF_BASES,
    {
        if let Some(d) = diff_id {
            if self.diff_base(d).is_none() {
                return SnapshotStep::Dropped;
            }
        }
        match snapshot {
            None => SnapshotStep::Dropped,
            Some(snap) => match self.accept_snapshot(snap_id, diff_id, as_diff, snap) {
                None => SnapshotStep::Old,
                Some(ack_as_base) => SnapshotStep::Taken {
                    ack_as_base,
                    predicted_tick: if server_tick > predicted_tick {
                        server_tick
                    } else {
                        predicted_tick
                    },
                    catch_up_ticks: if predicted_tick > server_tick {
                        predicted_tick - server_tick
                    } else {
                        0
                    },
                },
            },
        }
    }
}

/// Splits the time predicted ahead into whole ticks and the rest, both as
/// the 64 bits of nanoseconds a `Duration` is rebuilt from.
pub fn prediction_ticks(predict_max_nanos: u128, tick_time_nanos: u128) -> (r: (u64, u64))
    requires
        tick_time_nanos > 0,
    ensures
        r.0 == (predict_max_nanos / tick_time_nanos) as u64,
        r.1 == (predict_max_nanos % tick_time_nanos) as u64,
{
    ((predict_max_nanos / tick_time_nanos) as u64, (predict_max_nanos % tick_time_nanos) as u64)
}

} // verus!

//! Snapshots kept by the game.
use vstd::prelude::*;

verus! {

/// A snapshot received from the server and the monotonic tick it belongs
/// to.
pub struct SnapshotStorageItem {
    pub snapshot: Vec<u8>,
    pub monotonic_tick: u64,
}

} // verus!

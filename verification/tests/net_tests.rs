use ddnet_client::snapshot_history::SnapshotStep;
use ddnet_client::game_data::{
    default_binds, local_players_after_snapshot, BindProfile, DefaultBindKey, LocalPlayerAction,
    LocalPlayerUpdate, ProfileConfig, SnapLocalPlayer, WeaponKind,
};
use ddnet_client::net_input::{
    input_as_diff, input_chain_ticks, input_send_decision, record_sent_input, InputSend,
};
use ddnet_client::snapshot_history::{prediction_ticks, SnapshotHistory};
use std::collections::BTreeMap;

#[test]
fn old_snapshots_are_ignored() {
    let mut h = SnapshotHistory::new();
    assert_eq!(h.accept_snapshot(5, None, true, vec![1]), Some(true));
    assert_eq!(h.handled_snap_id, Some(5));
    assert_eq!(h.accept_snapshot(5, None, true, vec![2]), None);
    assert_eq!(h.accept_snapshot(3, None, true, vec![3]), None);
    assert_eq!(h.prev_snapshots.len(), 1);
    assert_eq!(h.diff_base(5), Some(&vec![1]));
}

#[test]
fn bases_older_than_the_diff_are_dropped() {
    let mut h = SnapshotHistory::new();
    for id in 1..=4u64 {
        assert_eq!(h.accept_snapshot(id, None, true, vec![id as u8]), Some(true));
    }
    assert_eq!(h.accept_snapshot(6, Some(3), false, vec![6]), Some(false));
    let keys: Vec<u64> = h.prev_snapshots.keys().copied().collect();
    assert_eq!(keys, vec![3, 4]);
    assert!(h.diff_base(2).is_none());
}

#[test]
fn at_most_ten_bases_are_kept() {
    let mut h = SnapshotHistory::new();
    for id in 0..10u64 {
        assert_eq!(h.accept_snapshot(id, None, true, vec![]), Some(true));
    }
    assert_eq!(h.accept_snapshot(10, None, true, vec![]), Some(false));
    assert_eq!(h.prev_snapshots.len(), 10);
    assert_eq!(h.handled_snap_id, Some(10));
}

#[test]
fn predicted_time_splits_into_ticks() {
    assert_eq!(prediction_ticks(45_000_000, 20_000_000), (2, 5_000_000));
    assert_eq!(prediction_ticks(0, 20_000_000), (0, 0));
}

#[test]
fn changed_state_is_sent_at_once() {
    let d = input_send_decision(Some(100), 105, 20, false, false, true, false, 50, 50, 5);
    assert!(d == InputSend { send: true, by_input_change: true });
}

#[test]
fn cursor_moves_wait_for_the_rate() {
    let d = input_send_decision(Some(100), 105, 20, false, false, false, true, 60, 50, 5);
    assert!(d == InputSend { send: false, by_input_change: false });
    let d = input_send_decision(Some(100), 125, 20, false, false, false, true, 60, 50, 5);
    assert!(d == InputSend { send: true, by_input_change: true });
}

#[test]
fn unchanged_input_is_repeated_for_a_few_ticks() {
    let d = input_send_decision(Some(100), 130, 20, false, false, false, false, 52, 50, 5);
    assert!(d == InputSend { send: true, by_input_change: false });
    let d = input_send_decision(Some(100), 130, 20, false, false, false, false, 56, 50, 5);
    assert!(d == InputSend { send: false, by_input_change: false });
    let d = input_send_decision(None, 0, 20, true, true, false, false, 56, 50, 5);
    assert!(d == InputSend { send: true, by_input_change: true });
}

#[test]
fn input_chain_covers_the_last_ticks() {
    assert_eq!(input_chain_ticks(100, 5), (96, 100));
    assert_eq!(input_chain_ticks(2, 5), (0, 2));
    assert_eq!(input_chain_ticks(7, 0), (7, 7));
}

#[test]
fn stale_sent_inputs_are_forgotten_in_order() {
    let mut sent: BTreeMap<u64, u128> = BTreeMap::new();
    sent.insert(1, 0);
    sent.insert(2, 4_000_000_000);
    sent.insert(3, 1_000_000_000);
    record_sent_input(&mut sent, 4, 5_000_000_000);
    let keys: Vec<u64> = sent.keys().copied().collect();
    // id 1 is stale and first; id 2 is fresh, so id 3 stays though stale
    assert_eq!(keys, vec![2, 3, 4]);
    assert_eq!(sent.get(&4), Some(&5_000_000_000));
}

#[test]
fn input_bases_are_limited() {
    assert!(input_as_diff(9));
    assert!(!input_as_diff(10));
}

use ddnet_client::frame_timing::{frame_limit, FrameWait};
use ddnet_client::net_input::{input_for_tick, obsolete_inputs};

#[test]
fn input_of_the_tick_or_the_newest_before_it() {
    let keys = vec![10, 11, 13, 12];
    assert_eq!(input_for_tick(&keys, 13), Some(2));
    // no input of tick 14: the newest queued one not after it is tick 12
    assert_eq!(input_for_tick(&keys, 14), Some(3));
    assert_eq!(input_for_tick(&keys, 9), None);
    assert_eq!(input_for_tick(&keys, 12), Some(3));
}

#[test]
fn inputs_before_the_snapshot_tick_are_obsolete() {
    assert_eq!(obsolete_inputs(&vec![3, 4, 5, 6], 5), 2);
    assert_eq!(obsolete_inputs(&vec![3, 4, 5, 6], 2), 0);
    assert_eq!(obsolete_inputs(&vec![3, 4], 10), 2);
    // only the leading run counts
    assert_eq!(obsolete_inputs(&vec![7, 3], 5), 0);
}

#[test]
fn frame_limiter_sleeps_for_the_rest_of_the_frame() {
    // 100 frames per second: 10 ms per frame, 4 ms of it used
    let w = frame_limit(100, 1_004_000_000, 1_000_000_000);
    assert!(w == FrameWait { sleep_nanos: Some(6_000_000), last_refresh_rate_time: 1_010_000_000 });
    // a late frame does not sleep, and the lateness is carried over
    let w = frame_limit(100, 1_030_000_000, 1_000_000_000);
    assert!(w == FrameWait { sleep_nanos: None, last_refresh_rate_time: 1_010_000_000 });
    let w = frame_limit(0, 5, 1);
    assert!(w == FrameWait { sleep_nanos: None, last_refresh_rate_time: 5 });
}

#[test]
fn long_stalls_are_not_made_up() {
    let w = frame_limit(100, 100_000_000_000, 0);
    assert_eq!(w.sleep_nanos, None);
    assert_eq!(w.last_refresh_rate_time, 100_000_000_000 - 16_666_666_666);
}

#[test]
fn snapshot_with_a_missing_base_is_dropped() {
    let mut h = SnapshotHistory::new();
    let step = h.handle_snapshot(5, Some(3), true, Some(vec![1]), 100, 100);
    assert_eq!(step, SnapshotStep::Dropped);
    assert_eq!(h.handled_snap_id, None);
    assert!(h.prev_snapshots.is_empty());
    let step = h.handle_snapshot(5, None, true, None, 100, 100);
    assert_eq!(step, SnapshotStep::Dropped);
    assert_eq!(h.handled_snap_id, None);
}

#[test]
fn new_snapshot_catches_the_prediction_up() {
    let mut h = SnapshotHistory::new();
    let step = h.handle_snapshot(1, None, true, Some(vec![7]), 100, 104);
    assert_eq!(
        step,
        SnapshotStep::Taken { ack_as_base: true, predicted_tick: 104, catch_up_ticks: 4 }
    );
    assert_eq!(h.handled_snap_id, Some(1));
    let step = h.handle_snapshot(2, Some(1), false, Some(vec![8]), 110, 104);
    assert_eq!(
        step,
        SnapshotStep::Taken { ack_as_base: false, predicted_tick: 110, catch_up_ticks: 0 }
    );
    assert_eq!(h.prev_snapshots.len(), 1);
    let step = h.handle_snapshot(2, None, true, Some(vec![9]), 120, 104);
    assert_eq!(step, SnapshotStep::Old);
    assert_eq!(h.handled_snap_id, Some(2));
}

#[test]
fn local_players_follow_the_snapshot() {
    let profiles = ProfileConfig { main_exists: true, dummy_exists: true, copy_binds_from_main: false };
    let snap = vec![
        SnapLocalPlayer { id: 1, is_dummy: false, cam_mode: 'f' },
        SnapLocalPlayer { id: 2, is_dummy: false, cam_mode: 'd' },
    ];
    let r = local_players_after_snapshot(&vec![2, 1], snap, &profiles);
    let ids: Vec<u64> = r
        .iter()
        .map(|u| match u {
            LocalPlayerUpdate::Kept { id, .. } | LocalPlayerUpdate::Added { id, .. } => *id,
        })
        .collect();
    assert_eq!(ids, vec![1, 2]);
    assert!(matches!(r[0], LocalPlayerUpdate::Kept { id: 1, old_index: 1, cam_mode: 'f' }));
    assert!(matches!(r[1], LocalPlayerUpdate::Kept { id: 2, old_index: 0, cam_mode: 'd' }));

    let snap = vec![
        SnapLocalPlayer { id: 2, is_dummy: false, cam_mode: 0u8 },
        SnapLocalPlayer { id: 5, is_dummy: true, cam_mode: 1 },
        SnapLocalPlayer { id: 3, is_dummy: false, cam_mode: 2 },
        SnapLocalPlayer { id: 6, is_dummy: false, cam_mode: 3 },
    ];
    let r = local_players_after_snapshot(&vec![3, 1, 2], snap, &profiles);
    assert_eq!(r.len(), 4);
    assert!(matches!(r[0], LocalPlayerUpdate::Kept { id: 2, old_index: 2, cam_mode: 0 }));
    assert!(matches!(
        r[1],
        LocalPlayerUpdate::Added { id: 5, is_dummy: true, binds: BindProfile::Dummy, cam_mode: 1 }
    ));
    assert!(matches!(r[2], LocalPlayerUpdate::Kept { id: 3, old_index: 0, cam_mode: 2 }));
    assert!(matches!(
        r[3],
        LocalPlayerUpdate::Added { id: 6, is_dummy: false, binds: BindProfile::Main, cam_mode: 3 }
    ));

    let copy = ProfileConfig { copy_binds_from_main: true, ..profiles };
    let r = local_players_after_snapshot(&vec![], vec![SnapLocalPlayer { id: 9, is_dummy: true, cam_mode: () }], &copy);
    assert!(matches!(r[0], LocalPlayerUpdate::Added { id: 9, is_dummy: true, binds: BindProfile::Main, .. }));
    let missing = ProfileConfig { main_exists: false, dummy_exists: true, copy_binds_from_main: false };
    let r = local_players_after_snapshot(&vec![4], vec![SnapLocalPlayer { id: 8, is_dummy: false, cam_mode: () }], &missing);
    assert_eq!(r.len(), 1);
    assert!(matches!(r[0], LocalPlayerUpdate::Added { id: 8, binds: BindProfile::DefaultsOnly, .. }));
}

#[test]
fn new_local_players_get_the_default_binds() {
    let b = default_binds();
    assert_eq!(b.len(), 25);
    assert_eq!(b[0], (DefaultBindKey::KeyA, LocalPlayerAction::MoveLeft));
    assert_eq!(b[5], (DefaultBindKey::MouseRight, LocalPlayerAction::Hook));
    assert_eq!(b[12], (DefaultBindKey::Digit5, LocalPlayerAction::Weapon(WeaponKind::Laser)));
    assert_eq!(b[24], (DefaultBindKey::NumpadMultiply, LocalPlayerAction::ZoomReset));
}

use ddnet_client::client_stats::DebugHudData as ClientStatsData;
use ddnet_client::debug_hud::DebugHudData;
use ddnet_client::game::SnapshotStorageItem;
use ddnet_client::game_data::SnapshotStorageItem as DataSnapshotStorageItem;
use ddnet_client::network_logic::NetworkLogic;
use ddnet_client::particles::ParticleGroup;
use ddnet_client::tee_editor::{EditorAtom, TeeImage, TeeImages};
use ddnet_client::ui_pages::{ConnectErrorMenu, DemoPage, IngameMenu, LoadingPage};
use std::sync::atomic::{AtomicU64, Ordering};
use std::sync::Arc;

#[test]
fn debug_hud_shares_the_counters() {
    let tex = Arc::new(AtomicU64::new(1));
    let d = DebugHudData::new(
        tex.clone(),
        Arc::new(AtomicU64::new(2)),
        Arc::new(AtomicU64::new(3)),
        Arc::new(AtomicU64::new(4)),
    );
    tex.store(10, Ordering::Relaxed);
    assert_eq!(d.texture_memory_usage.load(Ordering::Relaxed), 10);
    assert_eq!(d.staging_memory_usage.load(Ordering::Relaxed), 4);
    let c = ClientStatsData::new(tex.clone(), tex.clone(), tex.clone(), tex);
    assert_eq!(c.buffer_memory_usage.load(Ordering::Relaxed), 10);
}

#[test]
fn editor_atom_set_get_reset() {
    let mut a: EditorAtom<Option<usize>> = Default::default();
    assert_eq!(a.get(), None);
    a.set(Some(3));
    assert_eq!(a.get(), Some(3));
    a.reset();
    assert_eq!(a.get(), None);
    let mut s: EditorAtom<String> = Default::default();
    s.set("body".to_string());
    assert_eq!(s.get(), "body");
    s.set("marking".to_string());
    assert_eq!(s.get(), "marking");
    s.reset();
    assert_eq!(s.get(), EditorAtom::<String>::default().get());
    s.reset();
    assert_eq!(s.get(), "");
}

#[test]
fn tee_images_start_empty() {
    let i = TeeImage::default();
    assert!(i.name.is_empty() && i.data.is_empty());
    let all = TeeImages::default();
    assert!(all.marking.data.is_empty() && all.decoration.name.is_empty());
}

#[test]
fn particle_groups_are_numbered() {
    assert_eq!(ParticleGroup::ProjectileTrail.index(), 0);
    assert_eq!(ParticleGroup::General.index(), 3);
    assert_eq!(ParticleGroup::Count.index(), 4);
}

#[test]
fn stateless_components() {
    let _ = NetworkLogic::new();
    let _ = DemoPage::new();
    let _ = LoadingPage::new();
    let _: LoadingPage = Default::default();
    let _ = ConnectErrorMenu::new();
    let _ = IngameMenu::new();
}

#[test]
fn snapshot_items_hold_tick_and_data() {
    let a = SnapshotStorageItem { snapshot: vec![1, 2], monotonic_tick: 7 };
    let b = DataSnapshotStorageItem { snapshot: a.snapshot.clone(), monotonic_tick: a.monotonic_tick };
    assert_eq!(b.snapshot, vec![1, 2]);
    assert_eq!(b.monotonic_tick, 7);
}

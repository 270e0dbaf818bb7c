use ddnet_client::container::{GetAction, LoadTaskState};
use ddnet_client::asset_loading::{default_part_path_fits, part_path_fits};
use ddnet_client::asset_loading::{
    collection_path, default_file_part_path, default_part_missing_message, file_part_path,
    is_default_item, part_missing_message, LoadEmoticon, LoadHud, LoadSkin,
};
use ddnet_client::container::Container;
use ddnet_client::skin_parts::LoadSkin as SkinParts;

#[test]
fn part_path_joins_item_dirs_and_part() {
    let skins = collection_path("skins/");
    assert_eq!(skins.as_str(), "skins/");
    let p = file_part_path(&skins, "ninja", &[], "body");
    assert_eq!(p.as_str(), "skins/ninja/body.png");
    let p = file_part_path(&skins, "ninja", &["hd", "x2"], "eye_left");
    assert_eq!(p.as_str(), "skins/ninja/hd/x2/eye_left.png");
}

#[test]
fn default_part_path_uses_the_default_item() {
    let huds = collection_path("huds/");
    assert_eq!(default_file_part_path(&huds, "heart").as_str(), "huds/default/heart.png");
}

#[test]
fn default_item_is_recognised() {
    assert!(is_default_item("default"));
    assert!(!is_default_item("Default"));
    assert!(!is_default_item("ninja"));
}

#[test]
fn missing_part_messages() {
    assert_eq!(
        default_part_missing_message("body", "file not found"),
        "default asset part (body) not found: file not found"
    );
    let skins = collection_path("skins/");
    let p = file_part_path(&skins, "default", &[], "body");
    assert_eq!(
        part_missing_message("body", &p, "denied"),
        "default asset part (body) not found in \"skins/default/body.png\": denied"
    );
}

#[test]
fn loaders_start_empty() {
    let e = LoadEmoticon::default();
    assert!(e.tex.is_empty() && e.emoticon_name.is_empty());
    let h = LoadHud::default();
    assert!(h.heart.is_empty() && h.shield.is_empty() && h.hud_name.is_empty());
}

#[test]
fn every_eye_variant_shows_the_eye_file() {
    let mut s = LoadSkin::default();
    s.set_eye_files(&vec![1, 2], &vec![3]);
    assert!(s.left_eyes.iter().all(|e| *e == vec![1, 2]));
    assert!(s.left_eyes_outline.iter().all(|e| *e == vec![1, 2]));
    assert!(s.right_eyes.iter().all(|e| *e == vec![3]));
    assert!(s.right_eyes_outline.iter().all(|e| *e == vec![3]));
    assert!(s.body.is_empty());
}

#[test]
fn skin_from_one_file() {
    let s = SkinParts::new(&vec![9, 8]);
    assert_eq!(s.body, vec![9, 8]);
    assert_eq!(s.right_eye, vec![9, 8]);
    assert_eq!(s.decoration, vec![9, 8]);
}

#[test]
fn container_keeps_default_and_recent_items() {
    let mut c = Container::new();
    assert!(c.use_item("default"));
    assert!(!c.use_item("ninja"));
    c.add_loaded("ninja");
    assert!(c.use_item("ninja"));
    for _ in 0..11 {
        let evicted = c.update();
        assert!(evicted.is_empty());
    }
    // "ninja" was last used in update 0, eleven updates ago
    let evicted = c.update();
    assert_eq!(evicted, vec!["ninja".to_string()]);
    assert!(!c.use_item("ninja"));
    assert!(c.use_item("default"));
}

#[test]
fn used_items_stay() {
    let mut c = Container::new();
    c.add_loaded("a");
    c.add_loaded("b");
    for _ in 0..30 {
        c.use_item("b");
        c.update();
    }
    assert!(!c.use_item("a"));
    assert!(c.use_item("b"));
}

use ddnet_client::asset_index::{
    has_hash_suffix, hashed_file_path, hashed_tar_path, index_path, strip_hash_suffix,
};

#[test]
fn hash_suffix_is_recognised_and_stripped() {
    assert!(has_hash_suffix("ninja_ab12", "_ab12"));
    assert!(!has_hash_suffix("ninja_ab13", "_ab12"));
    assert!(!has_hash_suffix("_ab", "_ab12"));
    assert_eq!(strip_hash_suffix("ninja_ab12", "_ab12"), "ninja");
    assert_eq!(strip_hash_suffix("ninja", "_ab12"), "ninja");
    assert_eq!(strip_hash_suffix("_ab12", "_ab12"), "");
}

#[test]
fn stored_file_names_carry_the_hash() {
    assert_eq!(hashed_file_path("skins", "ninja", "_ab12", "png"), "skins/ninja_ab12.png");
    assert_eq!(hashed_tar_path("skins", "pack", "_ff"), "skins/pack_ff.tar");
    assert_eq!(index_path("skins"), "skins/index.json");
}

#[test]
fn loading_tasks_are_started_once_and_never_waited_on() {
    let mut c = Container::new();
    assert_eq!(
        c.get_or_default("ninja", LoadTaskState::Absent),
        (GetAction::StartLoad, LoadTaskState::Running)
    );
    assert_eq!(
        c.get_or_default("ninja", LoadTaskState::Running),
        (GetAction::KeepWaiting, LoadTaskState::Running)
    );
    assert!(!c.use_item("ninja"));
    assert_eq!(
        c.get_or_default("ninja", LoadTaskState::Finished { ok: true }),
        (GetAction::InsertLoaded, LoadTaskState::Absent)
    );
    assert!(c.use_item("ninja"));
    assert_eq!(
        c.get_or_default("ninja", LoadTaskState::Absent),
        (GetAction::UseItem, LoadTaskState::Absent)
    );
    assert_eq!(
        c.get_or_default("bad", LoadTaskState::Finished { ok: false }),
        (GetAction::ReportError, LoadTaskState::Failed)
    );
    assert_eq!(
        c.get_or_default("bad", LoadTaskState::Failed),
        (GetAction::UseDefault, LoadTaskState::Failed)
    );
    assert!(c.use_item("default"));
}

#[test]
fn part_paths_that_fit_are_told_apart() {
    let skins = collection_path("skins/");
    assert!(part_path_fits(&skins, "ninja", &["hd"], "body"));
    assert!(default_part_path_fits(&skins, "body"));
    let long = "x".repeat(4080);
    // skins/ (6) + 4080 + "/" + "body" (4) + ".png" (4) = 4095 bytes
    assert!(part_path_fits(&skins, &long, &[], "body"));
    assert!(!part_path_fits(&skins, &long, &["a"], "body"));
    assert!(part_path_fits(&skins, &long, &[], "bodyy"));
    assert!(!part_path_fits(&skins, &long, &[], "bodyyy"));
    // a two-byte character counts twice
    assert!(part_path_fits(&skins, &long, &[], "bödy"));
    assert!(!part_path_fits(&skins, &long, &[], "bödyy"));
    let long_part = "y".repeat(4074);
    // skins/ (6) + default/ (8) + 4074 + .png (4) = 4092
    assert!(default_part_path_fits(&skins, &long_part));
    assert!(!default_part_path_fits(&skins, &"y".repeat(4079)));
}

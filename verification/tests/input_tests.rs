use ddnet_client::game_data::{LocalPlayerAction as A, WeaponKind};
use ddnet_client::input_binds::{
    bind_frame, click_actions, global_hotkeys, press_actions, BindPlayerState, ClickEvent, Hotkey,
    HotkeyState, ZoomChange,
};
use ddnet_client::map_loading::{continue_loading, is_fully_loaded, MapLoadAction, MapLoadState};
use ddnet_client::net_input::{dummy_copy_sources, frame_input_send, CopyMovesPlayer};

fn idle() -> BindPlayerState {
    BindPlayerState {
        jump_held: false,
        fire_held: false,
        hook_held: false,
        emote_wheel_active: false,
        emote_selected: false,
        dummy_copy_moves: false,
        dummy_hammer: false,
    }
}

#[test]
fn held_actions_set_direction_buttons_and_weapons() {
    let st = press_actions(&vec![
        A::MoveLeft,
        A::MoveRight,
        A::MoveRight,
        A::Jump,
        A::NextWeapon,
        A::NextWeapon,
        A::PrevWeapon,
        A::Weapon(WeaponKind::Gun),
        A::Weapon(WeaponKind::Laser),
        A::ToggleDummyCopyMoves,
        A::ZoomIn,
        A::Kill,
    ]);
    let f = bind_frame(&idle(), &st);
    assert_eq!(f.dir, 1);
    assert!(f.jump && f.jump_pressed);
    assert!(!f.fire && !f.fire_pressed);
    assert_eq!((f.next_weapon, f.prev_weapon), (2, 1));
    assert_eq!(f.weapon_req, Some(WeaponKind::Laser));
    assert!(f.dummy_copy_moves);
    assert_eq!(f.zoom, ZoomChange::Steps { zoom_in: 1, zoom_out: 0 });

    let st = press_actions(&vec![A::MoveLeft, A::MoveRight, A::Jump, A::ZoomReset, A::ZoomIn]);
    let held = BindPlayerState { jump_held: true, dummy_copy_moves: true, ..idle() };
    let f = bind_frame(&held, &st);
    assert_eq!(f.dir, 0);
    assert!(f.jump && !f.jump_pressed);
    assert!(f.dummy_copy_moves);
    assert_eq!(f.zoom, ZoomChange::Reset);
}

#[test]
fn emote_wheel_sends_its_selection_when_it_closes() {
    let wheel = BindPlayerState { emote_wheel_active: true, emote_selected: true, ..idle() };
    let f = bind_frame(&wheel, &press_actions(&vec![]));
    assert!(f.send_emote_selection && !f.emote_wheel_active);
    let f = bind_frame(&wheel, &press_actions(&vec![A::ShowEmoteWheel]));
    assert!(!f.send_emote_selection && f.emote_wheel_active);
}

#[test]
fn clicks_open_the_menu_or_close_chat_and_send_votes() {
    let (chat, menu, evs) = click_actions(true, &vec![A::OpenMenu, A::Kill, A::VoteNo]);
    assert!(!chat && !menu);
    assert_eq!(evs, vec![ClickEvent::Kill, ClickEvent::VoteNo]);
    let (chat, menu, evs) = click_actions(false, &vec![A::OpenMenu, A::ActivateChatInput, A::VoteYes]);
    assert!(chat && menu);
    assert_eq!(evs, vec![ClickEvent::VoteYes]);
}

#[test]
fn console_hotkeys_toggle_and_close_each_other() {
    let st = HotkeyState { local_console: false, remote_console: Some(true), debug_hud: false };
    let (s, shots) = global_hotkeys(&st, &vec![Hotkey::LocalConsole, Hotkey::Screenshot, Hotkey::DebugHud]);
    assert_eq!(s, HotkeyState { local_console: true, remote_console: Some(false), debug_hud: true });
    assert_eq!(shots, 1);
    let (s, _) = global_hotkeys(&s, &vec![Hotkey::RemoteConsole]);
    assert_eq!(s.local_console, false);
    assert_eq!(s.remote_console, Some(true));
    let (s, _) = global_hotkeys(&s, &vec![Hotkey::ConsoleClose]);
    assert_eq!(s.remote_console, Some(false));
    let offline = HotkeyState { local_console: false, remote_console: None, debug_hud: false };
    let (s, _) = global_hotkeys(&offline, &vec![Hotkey::RemoteConsole]);
    assert_eq!(s.remote_console, None);
}

#[test]
fn frame_loop_resends_cursor_moves_every_20_ms() {
    let ms = 1_000_000u128;
    assert!(!frame_input_send(Some(100 * ms), 110 * ms, false, false, false, true));
    assert!(frame_input_send(Some(100 * ms), 120 * ms, false, false, false, true));
    assert!(frame_input_send(Some(100 * ms), 101 * ms, false, false, true, false));
    assert!(frame_input_send(Some(100 * ms), 101 * ms, true, false, false, false));
    assert!(!frame_input_send(Some(100 * ms), 101 * ms, true, true, false, false));
    assert!(frame_input_send(None, 0, false, false, false, true));
}

#[test]
fn dummies_copy_the_last_player_that_shares_its_moves() {
    let p = |copy: bool, dummy: bool| CopyMovesPlayer { dummy_copy_moves: copy, is_dummy: dummy };
    let r = dummy_copy_sources(&vec![p(false, true), p(true, false), p(false, true), p(false, false), p(true, true), p(false, true)]);
    assert_eq!(r, vec![None, None, Some(1), None, None, Some(4)]);
}

#[test]
fn map_loading_finishes_once_its_task_has() {
    assert_eq!(continue_loading(MapLoadState::Uploading, false), (MapLoadState::Uploading, MapLoadAction::Nothing));
    assert_eq!(continue_loading(MapLoadState::Uploading, true), (MapLoadState::Loaded, MapLoadAction::Finish));
    assert_eq!(continue_loading(MapLoadState::Loaded, true), (MapLoadState::Loaded, MapLoadAction::Nothing));
    assert_eq!(continue_loading(MapLoadState::Empty, true), (MapLoadState::Empty, MapLoadAction::Nothing));
    assert!(is_fully_loaded(MapLoadState::Loaded));
    assert!(!is_fully_loaded(MapLoadState::Uploading));
}

//! What the actions of a local player's binds do in a frame: held actions
//! set the movement and the held buttons, clicked actions open menus and
//! send votes, and a new press of jump, fire or hook becomes one input
//! event; and what the global hotkeys do to the consoles.
use crate::game_data::{LocalPlayerAction, WeaponKind};
use vstd::prelude::*;

verus! {

/// What the held actions of a frame add up to.
#[derive(Copy, Clone, Debug, PartialEq, Eq, Structural)]
pub struct PressState {
    pub left: usize,
    pub right: usize,
    pub jump: bool,
    pub fire: bool,
    pub hook: bool,
    pub next_weapon: usize,
    pub prev_weapon: usize,
    /// The last weapon chosen directly.
    pub weapon: Option<WeaponKind>,
    pub show_scoreboard: bool,
    pub show_chat_all: bool,
    pub show_emote_wheel: bool,
    /// The dummy-copy-moves switch was toggled an odd number of times.
    pub toggle_copy_moves: bool,
    /// The dummy-hammer-fly switch was toggled an odd number of times.
    pub toggle_hammer_fly: bool,
    pub zoom_reset: bool,
    pub zoom_in: usize,
    pub zoom_out: usize,
}

pub open spec fn press_start() -> PressState {
    PressState {
        left: 0,
        right: 0,
        jump: false,
        fire: false,
        hook: false,
        next_weapon: 0,
        prev_weapon: 0,
        weapon: None,
        show_scoreboard: false,
        show_chat_all: false,
        show_emote_wheel: false,
        toggle_copy_moves: false,
        toggle_hammer_fly: false,
        zoom_reset: false,
        zoom_in: 0,
        zoom_out: 0,
    }
}

/// One held action.
pub open spec fn press_step(st: PressState, a: LocalPlayerAction) -> PressState {
    match a {
        LocalPlayerAction::MoveLeft => PressState { left: (st.left + 1) as usize, ..st },
        LocalPlayerAction::MoveRight => PressState { right: (st.right + 1) as usize, ..st },
        LocalPlayerAction::Jump => PressState { jump: true, ..st },
        LocalPlayerAction::Fire => PressState { fire: true, ..st },
        LocalPlayerAction::Hook => PressState { hook: true, ..st },
        LocalPlayerAction::NextWeapon => PressState { next_weapon: (st.next_weapon + 1) as usize, ..st },
        LocalPlayerAction::PrevWeapon => PressState { prev_weapon: (st.prev_weapon + 1) as usize, ..st },
        LocalPlayerAction::Weapon(w) => PressState { weapon: Some(w), ..st },
        LocalPlayerAction::ShowScoreboard => PressState { show_scoreboard: true, ..st },
        LocalPlayerAction::ShowChatHistory => PressState { show_chat_all: true, ..st },
        LocalPlayerAction::ShowEmoteWheel => PressState { show_emote_wheel: true, ..st },
        LocalPlayerAction::ToggleDummyCopyMoves => PressState {
            toggle_copy_moves: !st.toggle_copy_moves,
            ..st
        },
        LocalPlayerAction::ToggleDummyHammerFly => PressState {
            toggle_hammer_fly: !st.toggle_hammer_fly,
            ..st
        },
        LocalPlayerAction::ZoomOut => PressState { zoom_out: (st.zoom_out + 1) as usize, ..st },
        LocalPlayerAction::ZoomIn => PressState { zoom_in: (st.zoom_in + 1) as usize, ..st },
        LocalPlayerAction::ZoomReset => PressState { zoom_reset: true, ..st },
        _ => st,
    }
}

/// The held actions of a frame, in order.
pub open spec fn press_fold(actions: Seq<LocalPlayerAction>) -> PressState
    decreases actions.len(),
{
    if actions.len() == 0 {
        press_start()
    } else {
        press_step(press_fold(actions.drop_last()), actions.last())
    }
}

pub open spec fn counts_within(st: PressState, n: int) -> bool {
    &&& st.left <= n
    &&& st.right <= n
    &&& st.next_weapon <= n
    &&& st.prev_weapon <= n
    &&& st.zoom_in <= n
    &&& st.zoom_out <= n
}

proof fn lemma_press_counts(actions: Seq<LocalPlayerAction>)
    ensures
        counts_within(press_fold(actions), actions.len() as int),
    decreases actions.len(),
{
    if actions.len() > 0 {
        lemma_press_counts(actions.drop_last());
    }
}

/// Adds up the held actions of a frame (see `press_fold`).
pub fn press_actions(actions: &Vec<LocalPlayerAction>) -> (r: PressState)
    ensures
        r == press_fold(actions@),
{
    let mut st = PressState {
        left: 0,
        right: 0,
        jump: false,
        fire: false,
        hook: false,
        next_weapon: 0,
        prev_weapon: 0,
        weapon: None,
        show_scoreboard: false,
        show_chat_all: false,
        show_emote_wheel: false,
        toggle_copy_moves: false,
        toggle_hammer_fly: false,
        zoom_reset: false,
        zoom_in: 0,
        zoom_out: 0,
    };
    let mut i: usize = 0;
    while i < actions.len()
        invariant
            i <= actions@.len(),
            st == press_fold(actions@.take(i as int)),
        decreases actions@.len() - i,
    {
        proof {
            assert(actions@.take(i + 1).drop_last() =~= actions@.take(i as int));
            lemma_press_counts(actions@.take(i as int));
        }
        let a = actions[i];
        match a {
            LocalPlayerAction::MoveLeft => st.left = st.left + 1,
            LocalPlayerAction::MoveRight => st.right = st.right + 1,
            LocalPlayerAction::Jump => st.jump = true,
            LocalPlayerAction::Fire => st.fire = true,
            LocalPlayerAction::Hook => st.hook = true,
            LocalPlayerAction::NextWeapon => st.next_weapon = st.next_weapon + 1,
            LocalPlayerAction::PrevWeapon => st.prev_weapon = st.prev_weapon + 1,
            LocalPlayerAction::Weapon(w) => st.weapon = Some(w),
            LocalPlayerAction::ShowScoreboard => st.show_scoreboard = true,
            LocalPlayerAction::ShowChatHistory => st.show_chat_all = true,
            LocalPlayerAction::ShowEmoteWheel => st.show_emote_wheel = true,
            LocalPlayerAction::ToggleDummyCopyMoves => st.toggle_copy_moves = !st.toggle_copy_moves,
            LocalPlayerAction::ToggleDummyHammerFly => st.toggle_hammer_fly = !st.toggle_hammer_fly,
            LocalPlayerAction::ZoomOut => st.zoom_out = st.zoom_out + 1,
            LocalPlayerAction::ZoomIn => st.zoom_in = st.zoom_in + 1,
            LocalPlayerAction::ZoomReset => st.zoom_reset = true,
            _ => {},
        }
        i = i + 1;
    }
    proof {
        assert(actions@.take(i as int) =~= actions@);
    }
    st
}

/// An event a clicked action sends.
#[derive(Copy, Clone, Debug, PartialEq, Eq, Structural)]
pub enum ClickEvent {
    Kill,
    VoteYes,
    VoteNo,
}

/// The clicked actions of a frame: whether chat input is active
/// afterwards, whether the menu was opened, and the events sent, in order.
/// Opening the menu first closes an active chat input.
pub open spec fn click_fold(chat_active: bool, actions: Seq<LocalPlayerAction>) -> (
    bool,
    bool,
    Seq<ClickEvent>,
)
    decreases actions.len(),
{
    if actions.len() == 0 {
        (chat_active, false, Seq::empty())
    } else {
        let (chat, menu, evs) = click_fold(chat_active, actions.drop_last());
        match actions.last() {
            LocalPlayerAction::OpenMenu => if chat {
                (false, menu, evs)
            } else {
                (chat, true, evs)
            },
            LocalPlayerAction::ActivateChatInput => (true, menu, evs),
            LocalPlayerAction::Kill => (chat, menu, evs.push(ClickEvent::Kill)),
            LocalPlayerAction::VoteYes => (chat, menu, evs.push(ClickEvent::VoteYes)),
            LocalPlayerAction::VoteNo => (chat, menu, evs.push(ClickEvent::VoteNo)),
            _ => (chat, menu, evs),
        }
    }
}

/// Handles the clicked actions of a frame (see `click_fold`).
pub fn click_actions(chat_input_active: bool, actions: &Vec<LocalPlayerAction>) -> (r: (
    bool,
    bool,
    Vec<ClickEvent>,
))
    ensures
        (r.0, r.1, r.2@) == click_fold(chat_input_active, actions@),
{
    let mut chat = chat_input_active;
    let mut menu = false;
    let mut evs: Vec<ClickEvent> = Vec::new();
    let mut i: usize = 0;
    while i < actions.len()
        invariant
            i <= actions@.len(),
            (chat, menu, evs@) == click_fold(chat_input_active, actions@.take(i as int)),
        decreases actions@.len() - i,
    {
        proof {
            assert(actions@.take(i + 1).drop_last() =~= actions@.take(i as int));
        }
        match actions[i] {
            LocalPlayerAction::OpenMenu => {
                if chat {
                    chat = false;
                } else {
                    menu = true;
                }
            },
            LocalPlayerAction::ActivateChatInput => chat = true,
            LocalPlayerAction::Kill => evs.push(ClickEvent::Kill),
            LocalPlayerAction::VoteYes => evs.push(ClickEvent::VoteYes),
            LocalPlayerAction::VoteNo => evs.push(ClickEvent::VoteNo),
            _ => {},
        }
        i = i + 1;
    }
    proof {
        assert(actions@.take(i as int) =~= actions@);
    }
    (chat, menu, evs)
}

/// The parts of a local player the binds read.
#[derive(Copy, Clone, Debug, PartialEq, Eq, Structural)]
pub struct BindPlayerState {
    /// Jump, fire and hook held in the last frame.
    pub jump_held: bool,
    pub fire_held: bool,
    pub hook_held: bool,
    pub emote_wheel_active: bool,
    /// The emote wheel has a selection.
    pub emote_selected: bool,
    pub dummy_copy_moves: bool,
    pub dummy_hammer: bool,
}

/// How the zoom changes: back to the default, or by steps of a tenth.
#[derive(Copy, Clone, Debug, PartialEq, Eq, Structural)]
pub enum ZoomChange {
    Reset,
    Steps { zoom_in: usize, zoom_out: usize },
}

/// The effect of a frame's held actions on a local player.
#[derive(Copy, Clone, Debug, PartialEq, Eq, Structural)]
pub struct BindFrame {
    /// Movement: -1 left, 1 right, 0 none (both or neither).
    pub dir: i8,
    pub jump: bool,
    pub fire: bool,
    pub hook: bool,
    /// A new press: one more jump, fire or hook event in the input.
    pub jump_pressed: bool,
    pub fire_pressed: bool,
    pub hook_pressed: bool,
    pub next_weapon: usize,
    pub prev_weapon: usize,
    pub weapon_req: Option<WeaponKind>,
    pub show_scoreboard: bool,
    pub show_chat_all: bool,
    pub emote_wheel_active: bool,
    /// The emote wheel closed with a selection, which is sent.
    pub send_emote_selection: bool,
    pub dummy_copy_moves: bool,
    pub dummy_hammer: bool,
    pub zoom: ZoomChange,
}

pub open spec fn spec_bind_frame(p: BindPlayerState, st: PressState) -> BindFrame {
    BindFrame {
        dir: if st.right > st.left {
            1i8
        } else if st.right < st.left {
            -1i8
        } else {
            0i8
        },
        jump: st.jump,
        fire: st.fire,
        hook: st.hook,
        jump_pressed: !p.jump_held && st.jump,
        fire_pressed: !p.fire_held && st.fire,
        hook_pressed: !p.hook_held && st.hook,
        next_weapon: st.next_weapon,
        prev_weapon: st.prev_weapon,
        weapon_req: st.weapon,
        show_scoreboard: st.show_scoreboard,
        show_chat_all: st.show_chat_all,
        emote_wheel_active: st.show_emote_wheel,
        send_emote_selection: p.emote_wheel_active && !st.show_emote_wheel && p.emote_selected,
        dummy_copy_moves: p.dummy_copy_moves != st.toggle_copy_moves,
        dummy_hammer: p.dummy_hammer != st.toggle_hammer_fly,
        zoom: if st.zoom_reset {
            ZoomChange::Reset
        } else {
            ZoomChange::Steps { zoom_in: st.zoom_in, zoom_out: st.zoom_out }
        },
    }
}

/// The effect of a frame's held actions on a local player: the movement
/// is the sum of left and right cut to one step, a button held now but not
/// in the last frame is a new press, the emote wheel's selection is sent
/// when the wheel closes, and each toggle flips its switch.
pub fn bind_frame(p: &BindPlayerState, st: &PressState) -> (r: BindFrame)
    ensures
        r == spec_bind_frame(*p, *st),
        r.jump_pressed == (st.jump && !p.jump_held),
        r.fire_pressed == (st.fire && !p.fire_held),
        r.hook_pressed == (st.hook && !p.hook_held),
        (r.jump, r.fire, r.hook) == (st.jump, st.fire, st.hook),
        r.dir == 1 <==> st.right > st.left,
        r.dir == -1 <==> st.right < st.left,
{
    BindFrame {
        dir: if st.right > st.left {
            1
        } else if st.right < st.left {
            -1
        } else {
            0
        },
        jump: st.jump,
        fire: st.fire,
        hook: st.hook,
        jump_pressed: !p.jump_held && st.jump,
        fire_pressed: !p.fire_held && st.fire,
        hook_pressed: !p.hook_held && st.hook,
        next_weapon: st.next_weapon,
        prev_weapon: st.prev_weapon,
        weapon_req: st.weapon,
        show_scoreboard: st.show_scoreboard,
        show_chat_all: st.show_chat_all,
        emote_wheel_active: st.show_emote_wheel,
        send_emote_selection: p.emote_wheel_active && !st.show_emote_wheel && p.emote_selected,
        dummy_copy_moves: p.dummy_copy_moves != st.toggle_copy_moves,
        dummy_hammer: p.dummy_hammer != st.toggle_hammer_fly,
        zoom: if st.zoom_reset {
            ZoomChange::Reset
        } else {
            ZoomChange::Steps { zoom_in: st.zoom_in, zoom_out: st.zoom_out }
        },
    }
}

proof fn lemma_press_buttons(actions: Seq<LocalPlayerAction>)
    ensures
        press_fold(actions).jump <==> actions.contains(LocalPlayerAction::Jump),
        press_fold(actions).fire <==> actions.contains(LocalPlayerAction::Fire),
        press_fold(actions).hook <==> actions.contains(LocalPlayerAction::Hook),
    decreases actions.len(),
{
    if actions.len() > 0 {
        let pre = actions.drop_last();
        lemma_press_buttons(pre);
        assert(actions =~= pre.push(actions.last()));
        assert forall|a: LocalPlayerAction| pre.contains(a) implies actions.contains(a) by {
            let i = choose|i: int| 0 <= i < pre.len() && pre[i] == a;
            assert(actions[i] == a);
        }
        assert forall|a: LocalPlayerAction| actions.contains(a) && a != actions.last() implies pre.contains(a) by {
            let i = choose|i: int| 0 <= i < actions.len() && actions[i] == a;
            assert(i < pre.len());
            assert(pre[i] == a);
        }
        assert(actions[actions.len() - 1] == actions.last());
    }
}

/// A button (jump, fire, hook) is held in a frame exactly when one of the
/// frame's held actions is that button, and it gives a new press exactly
/// when it is held now and was not held in the last frame: keeping it held
/// gives no further press.
pub proof fn law_new_press_only_when_not_held_before(
    p: BindPlayerState,
    actions: Seq<LocalPlayerAction>,
)
    ensures
        ({
            let f = spec_bind_frame(p, press_fold(actions));
            &&& f.jump <==> actions.contains(LocalPlayerAction::Jump)
            &&& f.fire <==> actions.contains(LocalPlayerAction::Fire)
            &&& f.hook <==> actions.contains(LocalPlayerAction::Hook)
            &&& f.jump_pressed <==> (actions.contains(LocalPlayerAction::Jump) && !p.jump_held)
            &&& f.fire_pressed <==> (actions.contains(LocalPlayerAction::Fire) && !p.fire_held)
            &&& f.hook_pressed <==> (actions.contains(LocalPlayerAction::Hook) && !p.hook_held)
            &&& p.fire_held ==> !f.fire_pressed
            &&& p.jump_held ==> !f.jump_pressed
            &&& p.hook_held ==> !f.hook_pressed
        }),
{
    lemma_press_buttons(actions);
}

/// The movement follows the held directions: right when more right than
/// left actions are held, left in the opposite case, none when they cancel.
pub proof fn law_direction_follows_held_moves(p: BindPlayerState, st: PressState)
    ensures
        spec_bind_frame(p, st).dir == 1 <==> st.right > st.left,
        spec_bind_frame(p, st).dir == -1 <==> st.right < st.left,
        spec_bind_frame(p, st).dir == 0 <==> st.right == st.left,
{
}

/// A hotkey of the client, whatever local player is active.
#[derive(Copy, Clone, Debug, PartialEq, Eq, Structural)]
pub enum Hotkey {
    Screenshot,
    LocalConsole,
    RemoteConsole,
    ConsoleClose,
    DebugHud,
}

/// Which of the consoles and the debug display are open; the remote
/// console exists only in a game (`None` otherwise).
#[derive(Copy, Clone, Debug, PartialEq, Eq, Structural)]
pub struct HotkeyState {
    pub local_console: bool,
    pub remote_console: Option<bool>,
    pub debug_hud: bool,
}

/// One clicked hotkey: each console toggles and closes the other one,
/// closing closes both, the debug display toggles; a screenshot changes
/// none of them.
pub open spec fn hotkey_step(st: HotkeyState, k: Hotkey) -> HotkeyState {
    match k {
        Hotkey::Screenshot => st,
        Hotkey::LocalConsole => HotkeyState {
            local_console: !st.local_console,
            remote_console: match st.remote_console {
                Some(_) => Some(false),
                None => None,
            },
            ..st
        },
        Hotkey::RemoteConsole => HotkeyState {
            local_console: false,
            remote_console: match st.remote_console {
                Some(o) => Some(!o),
                None => None,
            },
            ..st
        },
        Hotkey::ConsoleClose => HotkeyState {
            local_console: false,
            remote_console: match st.remote_console {
                Some(_) => Some(false),
                None => None,
            },
            ..st
        },
        Hotkey::DebugHud => HotkeyState { debug_hud: !st.debug_hud, ..st },
    }
}

pub open spec fn hotkey_fold(st: HotkeyState, keys: Seq<Hotkey>) -> HotkeyState
    decreases keys.len(),
{
    if keys.len() == 0 {
        st
    } else {
        hotkey_step(hotkey_fold(st, keys.drop_last()), keys.last())
    }
}

/// How many screenshots the hotkeys ask for.
pub open spec fn screenshot_count(keys: Seq<Hotkey>) -> nat
    decreases keys.len(),
{
    if keys.len() == 0 {
        0
    } else {
        screenshot_count(keys.drop_last()) + if keys.last() == Hotkey::Screenshot {
            1nat
        } else {
            0nat
        }
    }
}

proof fn lemma_screenshot_count(keys: Seq<Hotkey>)
    ensures
        screenshot_count(keys) <= keys.len(),
    decreases keys.len(),
{
    if keys.len() > 0 {
        lemma_screenshot_count(keys.drop_last());
    }
}

/// Handles the clicked hotkeys of a frame, in order (see `hotkey_step`),
/// and counts the screenshots they ask for.
pub fn global_hotkeys(st: &HotkeyState, keys: &Vec<Hotkey>) -> (r: (HotkeyState, usize))
    ensures
        r.0 == hotkey_fold(*st, keys@),
        r.1 == screenshot_count(keys@),
{
    let mut s = *st;
    let mut shots: usize = 0;
    let mut i: usize = 0;
    while i < keys.len()
        invariant
            i <= keys@.len(),
            s == hotkey_fold(*st, keys@.take(i as int)),
            shots == screenshot_count(keys@.take(i as int)),
        decreases keys@.len() - i,
    {
        proof {
            assert(keys@.take(i + 1).drop_last() =~= keys@.take(i as int));
            lemma_screenshot_count(keys@.take(i as int));
        }
        match keys[i] {
            Hotkey::Screenshot => shots = shots + 1,
            Hotkey::LocalConsole => {
                s.local_console = !s.local_console;
                if s.remote_console.is_some() {
                    s.remote_console = Some(false);
                }
            },
            Hotkey::RemoteConsole => {
                match s.remote_console {
                    Some(o) => s.remote_console = Some(!o),
                    None => {},
                }
                s.local_console = false;
            },
            Hotkey::ConsoleClose => {
                s.local_console = false;
                if s.remote_console.is_some() {
                    s.remote_console = Some(false);
                }
            },
            Hotkey::DebugHud => s.debug_hud = !s.debug_hud,
        }
        i = i + 1;
    }
    proof {
        assert(keys@.take(i as int) =~= keys@);
    }
    (s, shots)
}

/// How often `a` occurs among `actions`.
pub open spec fn count_action(actions: Seq<LocalPlayerAction>, a: LocalPlayerAction) -> nat
    decreases actions.len(),
{
    if actions.len() == 0 {
        0
    } else {
        count_action(actions.drop_last(), a) + if actions.last() == a {
            1nat
        } else {
            0nat
        }
    }
}

/// The held moves, weapon steps and zoom steps of a frame are counted: as
/// many as the frame holds of each; a zoom reset anywhere in the frame
/// resets the zoom; the toggles flip once per toggle action (for the
/// actions of a `Vec`).
pub proof fn law_held_actions_are_counted(actions: Seq<LocalPlayerAction>)
    requires
        actions.len() <= usize::MAX,
    ensures
        press_fold(actions).left == count_action(actions, LocalPlayerAction::MoveLeft),
        press_fold(actions).right == count_action(actions, LocalPlayerAction::MoveRight),
        press_fold(actions).next_weapon == count_action(actions, LocalPlayerAction::NextWeapon),
        press_fold(actions).prev_weapon == count_action(actions, LocalPlayerAction::PrevWeapon),
        press_fold(actions).zoom_in == count_action(actions, LocalPlayerAction::ZoomIn),
        press_fold(actions).zoom_out == count_action(actions, LocalPlayerAction::ZoomOut),
        press_fold(actions).zoom_reset <==> count_action(actions, LocalPlayerAction::ZoomReset) > 0,
        press_fold(actions).toggle_copy_moves <==> count_action(
            actions,
            LocalPlayerAction::ToggleDummyCopyMoves,
        ) % 2 == 1,
        press_fold(actions).toggle_hammer_fly <==> count_action(
            actions,
            LocalPlayerAction::ToggleDummyHammerFly,
        ) % 2 == 1,
    decreases actions.len(),
{
    if actions.len() > 0 {
        law_held_actions_are_counted(actions.drop_last());
        lemma_press_counts(actions.drop_last());
    }
}

/// Each console's hotkey toggles it and closes the other console, closing
/// closes both, the debug display's hotkey toggles only it, and a
/// screenshot leaves them all; a missing remote console stays missing.
pub proof fn law_console_hotkeys(st: HotkeyState, k: Hotkey)
    ensures
        k == Hotkey::LocalConsole ==> hotkey_step(st, k).local_console == !st.local_console
            && (st.remote_console is Some ==> hotkey_step(st, k).remote_console == Some(false)),
        k == Hotkey::RemoteConsole ==> !hotkey_step(st, k).local_console && (
        st.remote_console matches Some(o) ==> hotkey_step(st, k).remote_console == Some(!o)),
        k == Hotkey::ConsoleClose ==> !hotkey_step(st, k).local_console && (st.remote_console is Some
            ==> hotkey_step(st, k).remote_console == Some(false)),
        k == Hotkey::DebugHud ==> hotkey_step(st, k).debug_hud == !st.debug_hud,
        k != Hotkey::DebugHud ==> hotkey_step(st, k).debug_hud == st.debug_hud,
        k == Hotkey::Screenshot ==> hotkey_step(st, k) == st,
        st.remote_console is None ==> hotkey_step(st, k).remote_console is None,
{
}

} // verus!

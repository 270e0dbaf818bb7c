//! Snapshots kept with the game's data, and which local players the client
//! keeps and adds when a snapshot arrives.
use vstd::prelude::*;

verus! {

/// A snapshot received from the server and the monotonic tick it belongs
/// to.
pub struct SnapshotStorageItem {
    pub snapshot: Vec<u8>,
    pub monotonic_tick: u64,
}

/// Whose binds a new local player gets, besides the default binds every
/// local player has.
#[derive(Copy, Clone, Debug, PartialEq, Eq, Structural)]
pub enum BindProfile {
    /// The binds of the main player profile.
    Main,
    /// The binds of the dummy profile.
    Dummy,
    /// Only the default binds (the profile is missing).
    DefaultsOnly,
}

/// The profiles of the client's configuration that exist, and whether the
/// dummy copies the binds of the main player.
#[derive(Copy, Clone, Debug, PartialEq, Eq, Structural)]
pub struct ProfileConfig {
    pub main_exists: bool,
    pub dummy_exists: bool,
    pub copy_binds_from_main: bool,
}

/// The binds of a new player: a dummy takes the main player's binds or the
/// dummy profile's (when both profiles exist), another player the main
/// player's (when that profile exists).
pub open spec fn spec_bind_profile(is_dummy: bool, p: ProfileConfig) -> BindProfile {
    if is_dummy {
        if p.main_exists && p.dummy_exists {
            if p.copy_binds_from_main {
                BindProfile::Main
            } else {
                BindProfile::Dummy
            }
        } else {
            BindProfile::DefaultsOnly
        }
    } else if p.main_exists {
        BindProfile::Main
    } else {
        BindProfile::DefaultsOnly
    }
}

pub fn bind_profile(is_dummy: bool, p: &ProfileConfig) -> (r: BindProfile)
    ensures
        r == spec_bind_profile(is_dummy, *p),
{
    if is_dummy {
        if p.main_exists && p.dummy_exists {
            if p.copy_binds_from_main {
                BindProfile::Main
            } else {
                BindProfile::Dummy
            }
        } else {
            BindProfile::DefaultsOnly
        }
    } else if p.main_exists {
        BindProfile::Main
    } else {
        BindProfile::DefaultsOnly
    }
}

/// A local player as the snapshot names it: its id, whether it is a dummy,
/// and the camera mode the server gives it.
pub struct SnapLocalPlayer<C> {
    pub id: u64,
    pub is_dummy: bool,
    pub cam_mode: C,
}

/// A local player after a snapshot, in the snapshot's order: one the client
/// had keeps everything (its entry `old_index` among the client's players)
/// but takes the snapshot's camera mode; a new one is made with the
/// snapshot's dummy flag and camera mode, the default zoom, the binds of
/// `binds` and the default binds (`default_binds`).
pub enum LocalPlayerUpdate<C> {
    Kept { id: u64, old_index: usize, cam_mode: C },
    Added { id: u64, is_dummy: bool, binds: BindProfile, cam_mode: C },
}

pub open spec fn update_id<C>(u: LocalPlayerUpdate<C>) -> u64 {
    match u {
        LocalPlayerUpdate::Kept { id, .. } => id,
        LocalPlayerUpdate::Added { id, .. } => id,
    }
}

/// The update of the snapshot's player `s`, given the ids of the client's
/// players.
pub open spec fn is_update_of<C>(
    u: LocalPlayerUpdate<C>,
    old_ids: Seq<u64>,
    s: SnapLocalPlayer<C>,
    p: ProfileConfig,
) -> bool {
    match u {
        LocalPlayerUpdate::Kept { id, old_index, cam_mode } => {
            &&& id == s.id
            &&& old_index < old_ids.len()
            &&& old_ids[old_index as int] == id
            &&& cam_mode == s.cam_mode
        },
        LocalPlayerUpdate::Added { id, is_dummy, binds, cam_mode } => {
            &&& id == s.id
            &&& !old_ids.contains(id)
            &&& is_dummy == s.is_dummy
            &&& binds == spec_bind_profile(s.is_dummy, p)
            &&& cam_mode == s.cam_mode
        },
    }
}

/// The ids are distinct, as the keys of a map.
pub open spec fn distinct_u64(ids: Seq<u64>) -> bool {
    forall|i: int, j: int| 0 <= i < j < ids.len() ==> ids[i] != ids[j]
}

pub open spec fn snap_ids<C>(snap: Seq<SnapLocalPlayer<C>>) -> Seq<u64> {
    snap.map_values(|s: SnapLocalPlayer<C>| s.id)
}

fn find_id(ids: &Vec<u64>, id: u64) -> (r: Option<usize>)
    ensures
        r is None <==> !ids@.contains(id),
        r matches Some(i) ==> i < ids@.len() && ids@[i as int] == id,
{
    let mut i: usize = 0;
    while i < ids.len()
        invariant
            i <= ids@.len(),
            forall|j: int| 0 <= j < i ==> ids@[j] != id,
        decreases ids@.len() - i,
    {
        if ids[i] == id {
            return Some(i);
        }
        i = i + 1;
    }
    None
}

/// The client's local players after a snapshot: exactly the snapshot's
/// players, in the snapshot's order (the client's players it no longer
/// names are dropped). A player the client had (`old_ids`) is kept with
/// the snapshot's camera mode; a new one is added with the snapshot's dummy
/// flag and camera mode and the binds `spec_bind_profile` gives it.
pub fn local_players_after_snapshot<C>(
    old_ids: &Vec<u64>,
    snap: Vec<SnapLocalPlayer<C>>,
    profiles: &ProfileConfig,
) -> (r: Vec<LocalPlayerUpdate<C>>)
    requires
        distinct_u64(old_ids@),
        distinct_u64(snap_ids(snap@)),
    ensures
        r@.len() == snap@.len(),
        forall|i: int|
            0 <= i < r@.len() ==> is_update_of(#[trigger] r@[i], old_ids@, snap@[i], *profiles),
        forall|i: int| 0 <= i < r@.len() ==> update_id(#[trigger] r@[i]) == snap@[i].id,
        forall|i: int|
            0 <= i < r@.len() ==> ((#[trigger] r@[i] is Kept) <==> old_ids@.contains(snap@[i].id)),
{
    let ghost snap0 = snap@;
    let n = snap.len();
    let mut rest = snap;
    let mut r: Vec<LocalPlayerUpdate<C>> = Vec::new();
    let mut i: usize = 0;
    proof {
        assert(snap0.skip(0) =~= snap0);
    }
    while rest.len() > 0
        invariant
            n == snap0.len(),
            i + rest@.len() == snap0.len(),
            rest@ == snap0.skip(i as int),
            r@.len() == i,
            forall|j: int| 0 <= j < i ==> is_update_of(#[trigger] r@[j], old_ids@, snap0[j], *profiles),
            forall|j: int| 0 <= j < i ==> update_id(#[trigger] r@[j]) == snap0[j].id,
            forall|j: int|
                0 <= j < i ==> ((#[trigger] r@[j] is Kept) <==> old_ids@.contains(snap0[j].id)),
        decreases rest@.len(),
    {
        let s = rest.remove(0);
        proof {
            assert(s == snap0[i as int]);
            assert(rest@ =~= snap0.skip(i + 1));
        }
        let u = match find_id(old_ids, s.id) {
            Some(k) => LocalPlayerUpdate::Kept { id: s.id, old_index: k, cam_mode: s.cam_mode },
            None => LocalPlayerUpdate::Added {
                id: s.id,
                is_dummy: s.is_dummy,
                binds: bind_profile(s.is_dummy, profiles),
                cam_mode: s.cam_mode,
            },
        };
        r.push(u);
        i = i + 1;
    }
    r
}

/// After a snapshot the client's local players are the snapshot's, in its
/// order, and a player the snapshot does not name is dropped.
pub proof fn law_local_players_follow_the_snapshot<C>(
    old_ids: Seq<u64>,
    snap: Seq<SnapLocalPlayer<C>>,
    r: Seq<LocalPlayerUpdate<C>>,
    k: u64,
)
    requires
        r.len() == snap.len(),
        forall|i: int| 0 <= i < r.len() ==> update_id(#[trigger] r[i]) == snap[i].id,
    ensures
        r.map_values(|u: LocalPlayerUpdate<C>| update_id(u)) == snap_ids(snap),
        !snap_ids(snap).contains(k) ==> forall|i: int| 0 <= i < r.len() ==> update_id(
            #[trigger] r[i],
        ) != k,
{
    assert(r.map_values(|u: LocalPlayerUpdate<C>| update_id(u)) =~= snap_ids(snap));
    if !snap_ids(snap).contains(k) {
        assert forall|i: int| 0 <= i < r.len() implies update_id(#[trigger] r[i]) != k by {
            assert(snap_ids(snap)[i] == snap[i].id);
        }
    }
}

/// Keys and mouse inputs of the default binds.
#[derive(Copy, Clone, Debug, PartialEq, Eq, Structural)]
pub enum DefaultBindKey {
    KeyA,
    KeyD,
    Space,
    Escape,
    MouseLeft,
    MouseRight,
    WheelDown,
    WheelUp,
    Digit1,
    Digit2,
    Digit3,
    Digit4,
    Digit5,
    KeyG,
    Enter,
    KeyT,
    Tab,
    KeyU,
    ShiftLeft,
    KeyQ,
    F3,
    F4,
    NumpadSubtract,
    NumpadAdd,
    NumpadMultiply,
}

/// The weapons a bind can choose.
#[derive(Copy, Clone, Debug, PartialEq, Eq, Structural)]
pub enum WeaponKind {
    Hammer,
    Gun,
    Shotgun,
    Grenade,
    Laser,
}

/// What a local player's bind does.
#[derive(Copy, Clone, Debug, PartialEq, Eq, Structural)]
pub enum LocalPlayerAction {
    MoveLeft,
    MoveRight,
    Jump,
    OpenMenu,
    Fire,
    Hook,
    PrevWeapon,
    NextWeapon,
    Weapon(WeaponKind),
    ToggleDummyCopyMoves,
    ToggleDummyHammerFly,
    ActivateChatInput,
    ShowScoreboard,
    ShowChatHistory,
    ShowEmoteWheel,
    Kill,
    VoteYes,
    VoteNo,
    ZoomOut,
    ZoomIn,
    ZoomReset,
}

pub open spec fn spec_default_binds() -> Seq<(DefaultBindKey, LocalPlayerAction)> {
    seq![
        (DefaultBindKey::KeyA, LocalPlayerAction::MoveLeft),
        (DefaultBindKey::KeyD, LocalPlayerAction::MoveRight),
        (DefaultBindKey::Space, LocalPlayerAction::Jump),
        (DefaultBindKey::Escape, LocalPlayerAction::OpenMenu),
        (DefaultBindKey::MouseLeft, LocalPlayerAction::Fire),
        (DefaultBindKey::MouseRight, LocalPlayerAction::Hook),
        (DefaultBindKey::WheelDown, LocalPlayerAction::PrevWeapon),
        (DefaultBindKey::WheelUp, LocalPlayerAction::NextWeapon),
        (DefaultBindKey::Digit1, LocalPlayerAction::Weapon(WeaponKind::Hammer)),
        (DefaultBindKey::Digit2, LocalPlayerAction::Weapon(WeaponKind::Gun)),
        (DefaultBindKey::Digit3, LocalPlayerAction::Weapon(WeaponKind::Shotgun)),
        (DefaultBindKey::Digit4, LocalPlayerAction::Weapon(WeaponKind::Grenade)),
        (DefaultBindKey::Digit5, LocalPlayerAction::Weapon(WeaponKind::Laser)),
        (DefaultBindKey::KeyG, LocalPlayerAction::ToggleDummyCopyMoves),
        (DefaultBindKey::Enter, LocalPlayerAction::ActivateChatInput),
        (DefaultBindKey::KeyT, LocalPlayerAction::ActivateChatInput),
        (DefaultBindKey::Tab, LocalPlayerAction::ShowScoreboard),
        (DefaultBindKey::KeyU, LocalPlayerAction::ShowChatHistory),
        (DefaultBindKey::ShiftLeft, LocalPlayerAction::ShowEmoteWheel),
        (DefaultBindKey::KeyQ, LocalPlayerAction::Kill),
        (DefaultBindKey::F3, LocalPlayerAction::VoteYes),
        (DefaultBindKey::F4, LocalPlayerAction::VoteNo),
        (DefaultBindKey::NumpadSubtract, LocalPlayerAction::ZoomOut),
        (DefaultBindKey::NumpadAdd, LocalPlayerAction::ZoomIn),
        (DefaultBindKey::NumpadMultiply, LocalPlayerAction::ZoomReset),
    ]
}

/// The binds every new local player gets after those of its profile, in
/// the order they are registered.
pub fn default_binds() -> (r: Vec<(DefaultBindKey, LocalPlayerAction)>)
    ensures
        r@ == spec_default_binds(),
{
    vec![
        (DefaultBindKey::KeyA, LocalPlayerAction::MoveLeft),
        (DefaultBindKey::KeyD, LocalPlayerAction::MoveRight),
        (DefaultBindKey::Space, LocalPlayerAction::Jump),
        (DefaultBindKey::Escape, LocalPlayerAction::OpenMenu),
        (DefaultBindKey::MouseLeft, LocalPlayerAction::Fire),
        (DefaultBindKey::MouseRight, LocalPlayerAction::Hook),
        (DefaultBindKey::WheelDown, LocalPlayerAction::PrevWeapon),
        (DefaultBindKey::WheelUp, LocalPlayerAction::NextWeapon),
        (DefaultBindKey::Digit1, LocalPlayerAction::Weapon(WeaponKind::Hammer)),
        (DefaultBindKey::Digit2, LocalPlayerAction::Weapon(WeaponKind::Gun)),
        (DefaultBindKey::Digit3, LocalPlayerAction::Weapon(WeaponKind::Shotgun)),
        (DefaultBindKey::Digit4, LocalPlayerAction::Weapon(WeaponKind::Grenade)),
        (DefaultBindKey::Digit5, LocalPlayerAction::Weapon(WeaponKind::Laser)),
        (DefaultBindKey::KeyG, LocalPlayerAction::ToggleDummyCopyMoves),
        (DefaultBindKey::Enter, LocalPlayerAction::ActivateChatInput),
        (DefaultBindKey::KeyT, LocalPlayerAction::ActivateChatInput),
        (DefaultBindKey::Tab, LocalPlayerAction::ShowScoreboard),
        (DefaultBindKey::KeyU, LocalPlayerAction::ShowChatHistory),
        (DefaultBindKey::ShiftLeft, LocalPlayerAction::ShowEmoteWheel),
        (DefaultBindKey::KeyQ, LocalPlayerAction::Kill),
        (DefaultBindKey::F3, LocalPlayerAction::VoteYes),
        (DefaultBindKey::F4, LocalPlayerAction::VoteNo),
        (DefaultBindKey::NumpadSubtract, LocalPlayerAction::ZoomOut),
        (DefaultBindKey::NumpadAdd, LocalPlayerAction::ZoomIn),
        (DefaultBindKey::NumpadMultiply, LocalPlayerAction::ZoomReset),
    ]
}

} // verus!

//! The phases of a game session and what moves it from one to the next:
//! the client's own update step and the messages of the server. The work
//! each step asks for (connecting, loading the map, handling a message) is
//! the caller's.
use vstd::prelude::*;

verus! {

/// The phase of the game.
#[derive(Copy, Clone, Debug, PartialEq, Eq, Structural)]
pub enum GamePhase {
    /// No game, e.g. the client is in the main menu.
    Idle,
    /// Preparing to connect to a server.
    PrepareConnect,
    /// Connecting to the server.
    Connecting,
    /// Loading the map.
    Loading,
    /// The map is loaded; no snapshot has arrived yet.
    WaitingForFirstSnapshot,
    /// Playing.
    Active,
}

/// The kinds of server messages the phases tell apart.
#[derive(Copy, Clone, Debug, PartialEq, Eq, Structural)]
pub enum ServerMessageKind {
    /// The server's information, answering a connection.
    ServerInfo,
    /// The client's place in the server's queue.
    QueueInfo,
    /// A map to load.
    Load,
    /// A snapshot of the game.
    Snapshot,
    /// Any other message.
    Other,
}

/// What a step asks the caller to do.
#[derive(Copy, Clone, Debug, PartialEq, Eq, Structural)]
pub enum PhaseAction {
    Nothing,
    /// Open the connection to the server.
    Connect,
    /// Load the map the message names.
    LoadMap,
    /// Show the queue position.
    ShowQueue,
    /// Send "ready" to the server: the map is loaded.
    SendReady,
    /// Go on loading the map.
    ContinueLoading,
    /// Hand the message to the game's network logic; `first_snapshot` when
    /// it is the first snapshot, which also sets the game's clock.
    HandleMessage { first_snapshot: bool },
}

/// What a step does to the user interface.
#[derive(Copy, Clone, Debug, PartialEq, Eq, Structural)]
pub enum UiEffect {
    /// The interface stays as it is.
    Unchanged,
    /// The interface closes and its path is routed to the in-game page.
    CloseToIngame,
    /// The interface's path is routed to the connecting page.
    RouteToConnecting,
}

impl UiEffect {
    /// The page the interface's path is routed to, if any.
    pub fn route(&self) -> (r: Option<&'static str>)
        ensures
            *self == UiEffect::Unchanged <==> r is None,
            *self == UiEffect::CloseToIngame ==> (r matches Some(p) && p@ == "ingame"@),
            *self == UiEffect::RouteToConnecting ==> (r matches Some(p) && p@ == "connecting"@),
    {
        match self {
            UiEffect::Unchanged => None,
            UiEffect::CloseToIngame => Some("ingame"),
            UiEffect::RouteToConnecting => Some("connecting"),
        }
    }

    /// Whether the interface closes.
    pub fn closes_ui(&self) -> (r: bool)
        ensures
            r == (*self == UiEffect::CloseToIngame),
    {
        match self {
            UiEffect::CloseToIngame => true,
            _ => false,
        }
    }
}

pub open spec fn spec_on_update(phase: GamePhase, map_loaded: bool) -> (GamePhase, PhaseAction) {
    match phase {
        GamePhase::PrepareConnect => (GamePhase::Connecting, PhaseAction::Connect),
        GamePhase::Loading => if map_loaded {
            (GamePhase::WaitingForFirstSnapshot, PhaseAction::SendReady)
        } else {
            (GamePhase::Loading, PhaseAction::ContinueLoading)
        },
        _ => (phase, PhaseAction::Nothing),
    }
}

pub open spec fn spec_on_message(phase: GamePhase, msg: ServerMessageKind) -> (
    GamePhase,
    PhaseAction,
    UiEffect,
) {
    match phase {
        GamePhase::Connecting => match msg {
            ServerMessageKind::ServerInfo => (
                GamePhase::Loading,
                PhaseAction::LoadMap,
                UiEffect::CloseToIngame,
            ),
            ServerMessageKind::QueueInfo => (
                GamePhase::Connecting,
                PhaseAction::ShowQueue,
                UiEffect::RouteToConnecting,
            ),
            _ => (GamePhase::Connecting, PhaseAction::Nothing, UiEffect::Unchanged),
        },
        GamePhase::WaitingForFirstSnapshot => match msg {
            ServerMessageKind::Load => (GamePhase::Loading, PhaseAction::LoadMap, UiEffect::CloseToIngame),
            ServerMessageKind::Snapshot => (
                GamePhase::Active,
                PhaseAction::HandleMessage { first_snapshot: true },
                UiEffect::Unchanged,
            ),
            _ => (
                GamePhase::WaitingForFirstSnapshot,
                PhaseAction::HandleMessage { first_snapshot: false },
                UiEffect::Unchanged,
            ),
        },
        GamePhase::Active => match msg {
            ServerMessageKind::Load => (GamePhase::Loading, PhaseAction::LoadMap, UiEffect::CloseToIngame),
            _ => (
                GamePhase::Active,
                PhaseAction::HandleMessage { first_snapshot: false },
                UiEffect::Unchanged,
            ),
        },
        _ => (phase, PhaseAction::Nothing, UiEffect::Unchanged),
    }
}

/// The client's update step: a prepared connection is opened, and a
/// loading game waits for its map, then tells the server it is ready.
pub fn on_update(phase: GamePhase, map_loaded: bool) -> (r: (GamePhase, PhaseAction))
    ensures
        r == spec_on_update(phase, map_loaded),
{
    match phase {
        GamePhase::PrepareConnect => (GamePhase::Connecting, PhaseAction::Connect),
        GamePhase::Loading => {
            if map_loaded {
                (GamePhase::WaitingForFirstSnapshot, PhaseAction::SendReady)
            } else {
                (GamePhase::Loading, PhaseAction::ContinueLoading)
            }
        },
        _ => (phase, PhaseAction::Nothing),
    }
}

/// A message of the server: while connecting, the server's information
/// starts loading its map and a queue message shows the queue position on
/// the connecting page; a loaded game hands every other message to its
/// network logic, becomes active with the first snapshot, and loads a new
/// map when the server names one. Loading a map closes the interface and
/// routes it to the in-game page. A preparing or loading game drops the
/// message.
pub fn on_message(phase: GamePhase, msg: ServerMessageKind) -> (r: (
    GamePhase,
    PhaseAction,
    UiEffect,
))
    ensures
        r == spec_on_message(phase, msg),
        (phase == GamePhase::WaitingForFirstSnapshot || phase == GamePhase::Active) && msg
            != ServerMessageKind::Load ==> r.1 == (PhaseAction::HandleMessage {
            first_snapshot: phase == GamePhase::WaitingForFirstSnapshot && msg
                == ServerMessageKind::Snapshot,
        }),
        r.1 == PhaseAction::LoadMap <==> r.2 == UiEffect::CloseToIngame,
        r.1 == PhaseAction::ShowQueue <==> r.2 == UiEffect::RouteToConnecting,
{
    match phase {
        GamePhase::Connecting => match msg {
            ServerMessageKind::ServerInfo => (
                GamePhase::Loading,
                PhaseAction::LoadMap,
                UiEffect::CloseToIngame,
            ),
            ServerMessageKind::QueueInfo => (
                GamePhase::Connecting,
                PhaseAction::ShowQueue,
                UiEffect::RouteToConnecting,
            ),
            _ => (GamePhase::Connecting, PhaseAction::Nothing, UiEffect::Unchanged),
        },
        GamePhase::WaitingForFirstSnapshot => match msg {
            ServerMessageKind::Load => (GamePhase::Loading, PhaseAction::LoadMap, UiEffect::CloseToIngame),
            ServerMessageKind::Snapshot => (
                GamePhase::Active,
                PhaseAction::HandleMessage { first_snapshot: true },
                UiEffect::Unchanged,
            ),
            _ => (
                GamePhase::WaitingForFirstSnapshot,
                PhaseAction::HandleMessage { first_snapshot: false },
                UiEffect::Unchanged,
            ),
        },
        GamePhase::Active => match msg {
            ServerMessageKind::Load => (GamePhase::Loading, PhaseAction::LoadMap, UiEffect::CloseToIngame),
            _ => (
                GamePhase::Active,
                PhaseAction::HandleMessage { first_snapshot: false },
                UiEffect::Unchanged,
            ),
        },
        _ => (phase, PhaseAction::Nothing, UiEffect::Unchanged),
    }
}

/// A game only becomes active through a snapshot: from waiting for the
/// first one, or by staying active; and a map is only loaded after the
/// server answered the connection or named a new map.
pub proof fn law_active_only_after_snapshot(phase: GamePhase, msg: ServerMessageKind, map_loaded: bool)
    ensures
        spec_on_message(phase, msg).0 == GamePhase::Active ==> (phase == GamePhase::Active || (phase
            == GamePhase::WaitingForFirstSnapshot && msg == ServerMessageKind::Snapshot)),
        spec_on_update(phase, map_loaded).0 == GamePhase::Active ==> phase == GamePhase::Active,
        spec_on_message(phase, msg).1 == PhaseAction::LoadMap ==> (msg == ServerMessageKind::ServerInfo
            || msg == ServerMessageKind::Load),
{
}

/// Waiting for the first snapshot is only reached once the map is loaded.
pub proof fn law_waiting_needs_loaded_map(phase: GamePhase, msg: ServerMessageKind, map_loaded: bool)
    ensures
        spec_on_update(phase, map_loaded).0 == GamePhase::WaitingForFirstSnapshot ==> (phase
            == GamePhase::WaitingForFirstSnapshot || (phase == GamePhase::Loading && map_loaded)),
        spec_on_message(phase, msg).0 == GamePhase::WaitingForFirstSnapshot ==> phase
            == GamePhase::WaitingForFirstSnapshot,
{
}

/// The update step only moves a preparing game on to connecting and a
/// loading game on to waiting for its first snapshot, the latter exactly
/// when its map is loaded and then with one "ready" to the server; every
/// other phase stays as it is.
pub proof fn law_update_steps(phase: GamePhase, map_loaded: bool)
    ensures
        phase == GamePhase::PrepareConnect ==> spec_on_update(phase, map_loaded).0
            == GamePhase::Connecting,
        phase == GamePhase::Loading ==> ((spec_on_update(phase, map_loaded).0
            == GamePhase::WaitingForFirstSnapshot) <==> map_loaded),
        phase == GamePhase::Loading && map_loaded ==> spec_on_update(phase, map_loaded).1
            == PhaseAction::SendReady,
        spec_on_update(phase, map_loaded).1 == PhaseAction::SendReady ==> phase == GamePhase::Loading
            && map_loaded,
        phase != GamePhase::PrepareConnect && phase != GamePhase::Loading ==> spec_on_update(
            phase,
            map_loaded,
        ) == (phase, PhaseAction::Nothing),
{
}

/// A loaded game hands every message but a new map to its network logic
/// (marked as the first snapshot exactly for a snapshot while it waits for
/// one) and stays loaded; any other phase hands no message on.
pub proof fn law_loaded_game_handles_every_message(phase: GamePhase, msg: ServerMessageKind)
    ensures
        (phase == GamePhase::WaitingForFirstSnapshot || phase == GamePhase::Active) && msg
            != ServerMessageKind::Load ==> spec_on_message(phase, msg).1
            == (PhaseAction::HandleMessage {
            first_snapshot: phase == GamePhase::WaitingForFirstSnapshot && msg
                == ServerMessageKind::Snapshot,
        }) && (spec_on_message(phase, msg).0 == GamePhase::WaitingForFirstSnapshot
            || spec_on_message(phase, msg).0 == GamePhase::Active),
        (phase == GamePhase::WaitingForFirstSnapshot || phase == GamePhase::Active) && msg
            == ServerMessageKind::Load ==> spec_on_message(phase, msg).1 == PhaseAction::LoadMap,
        phase != GamePhase::WaitingForFirstSnapshot && phase != GamePhase::Active ==> !(
        (spec_on_message(phase, msg).1 is HandleMessage)),
{
}

} // verus!

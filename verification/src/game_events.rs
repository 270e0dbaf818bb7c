//! Events of the game for the client: what each network event does to the
//! game's phase and what the client does about it.
use crate::game_phase::GamePhase;
use vstd::prelude::*;

verus! {

/// Forwards the events the game generates to the client's components; it
/// keeps no state.
pub struct GameEventsClient {}

/// The network events the client reacts to.
#[derive(Copy, Clone, Debug, PartialEq, Eq, Structural)]
pub enum NetworkEventKind {
    /// The connection to the server stands.
    Connected,
    /// The connection was closed.
    Disconnected,
    /// New statistics of the connection, with a ping.
    NetworkStats,
    /// The connection could not be made.
    ConnectingFailed,
}

/// What the client does about a network event.
#[derive(Copy, Clone, Debug, PartialEq, Eq, Structural)]
pub enum GameEventAction {
    /// Log the time the connection was made.
    LogConnectTime,
    /// Open the user interface at its start page.
    OpenMainMenu,
    /// Take the measured ping into the game and its prediction timing.
    RecordPing,
    /// Show the connecting page; `with_error` when the game was connecting
    /// and its connect information now holds the reason of the failure.
    ShowConnectFailure { with_error: bool },
    Nothing,
}

pub open spec fn spec_on_network_event(phase: GamePhase, event: NetworkEventKind) -> (
    GamePhase,
    GameEventAction,
) {
    match event {
        NetworkEventKind::Connected => (phase, GameEventAction::LogConnectTime),
        NetworkEventKind::Disconnected => (GamePhase::Idle, GameEventAction::OpenMainMenu),
        NetworkEventKind::NetworkStats => if phase == GamePhase::Active {
            (phase, GameEventAction::RecordPing)
        } else {
            (phase, GameEventAction::Nothing)
        },
        NetworkEventKind::ConnectingFailed => (
            phase,
            GameEventAction::ShowConnectFailure { with_error: phase == GamePhase::Connecting },
        ),
    }
}

impl GameEventsClient {
    /// A network event: a closed connection ends the game and opens the
    /// menu, a ping only counts in an active game, and a failed connection
    /// shows the connecting page, with its reason when the game was
    /// connecting. No other event changes the phase.
    pub fn on_network_event(phase: GamePhase, event: NetworkEventKind) -> (r: (
        GamePhase,
        GameEventAction,
    ))
        ensures
            r == spec_on_network_event(phase, event),
            event == NetworkEventKind::Disconnected <==> r.1 == GameEventAction::OpenMainMenu,
            event != NetworkEventKind::Disconnected ==> r.0 == phase,
    {
        match event {
            NetworkEventKind::Connected => (phase, GameEventAction::LogConnectTime),
            NetworkEventKind::Disconnected => (GamePhase::Idle, GameEventAction::OpenMainMenu),
            NetworkEventKind::NetworkStats => {
                if phase == GamePhase::Active {
                    (phase, GameEventAction::RecordPing)
                } else {
                    (phase, GameEventAction::Nothing)
                }
            },
            NetworkEventKind::ConnectingFailed => (
                phase,
                GameEventAction::ShowConnectFailure { with_error: phase == GamePhase::Connecting },
            ),
        }
    }
}

} // verus!

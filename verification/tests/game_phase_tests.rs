use ddnet_client::game_phase::{on_message, on_update, GamePhase, PhaseAction, ServerMessageKind, UiEffect};
use ddnet_client::game_events::{GameEventAction, GameEventsClient, NetworkEventKind};

#[test]
fn session_goes_from_connecting_to_active() {
    let (p, a) = on_update(GamePhase::PrepareConnect, false);
    assert!(p == GamePhase::Connecting && a == PhaseAction::Connect);
    let (p, a, _) = on_message(p, ServerMessageKind::QueueInfo);
    assert!(p == GamePhase::Connecting && a == PhaseAction::ShowQueue);
    let (p, a, _) = on_message(p, ServerMessageKind::ServerInfo);
    assert!(p == GamePhase::Loading && a == PhaseAction::LoadMap);
    let (p, a) = on_update(p, false);
    assert!(p == GamePhase::Loading && a == PhaseAction::ContinueLoading);
    let (p, a) = on_update(p, true);
    assert!(p == GamePhase::WaitingForFirstSnapshot && a == PhaseAction::SendReady);
    let (p, a, _) = on_message(p, ServerMessageKind::Other);
    assert!(p == GamePhase::WaitingForFirstSnapshot);
    assert!(a == PhaseAction::HandleMessage { first_snapshot: false });
    let (p, a, _) = on_message(p, ServerMessageKind::Snapshot);
    assert!(p == GamePhase::Active && a == PhaseAction::HandleMessage { first_snapshot: true });
    let (p, a, _) = on_message(p, ServerMessageKind::Snapshot);
    assert!(p == GamePhase::Active && a == PhaseAction::HandleMessage { first_snapshot: false });
}

#[test]
fn a_new_map_is_loaded_from_a_running_game() {
    let (p, a, _) = on_message(GamePhase::Active, ServerMessageKind::Load);
    assert!(p == GamePhase::Loading && a == PhaseAction::LoadMap);
}

#[test]
fn messages_without_a_game_change_nothing() {
    let (p, a, _) = on_message(GamePhase::Idle, ServerMessageKind::Snapshot);
    assert!(p == GamePhase::Idle && a == PhaseAction::Nothing);
    let (p, a, _) = on_message(GamePhase::Loading, ServerMessageKind::Snapshot);
    assert!(p == GamePhase::Loading && a == PhaseAction::Nothing);
    let (p, a) = on_update(GamePhase::Active, true);
    assert!(p == GamePhase::Active && a == PhaseAction::Nothing);
}

#[test]
fn disconnect_ends_the_game_and_opens_the_menu() {
    for phase in [GamePhase::Connecting, GamePhase::Loading, GamePhase::Active] {
        assert_eq!(
            GameEventsClient::on_network_event(phase, NetworkEventKind::Disconnected),
            (GamePhase::Idle, GameEventAction::OpenMainMenu)
        );
    }
}

#[test]
fn ping_counts_only_in_an_active_game() {
    assert_eq!(
        GameEventsClient::on_network_event(GamePhase::Active, NetworkEventKind::NetworkStats),
        (GamePhase::Active, GameEventAction::RecordPing)
    );
    assert_eq!(
        GameEventsClient::on_network_event(GamePhase::Loading, NetworkEventKind::NetworkStats),
        (GamePhase::Loading, GameEventAction::Nothing)
    );
}

#[test]
fn failed_connection_shows_its_reason_only_while_connecting() {
    assert_eq!(
        GameEventsClient::on_network_event(GamePhase::Connecting, NetworkEventKind::ConnectingFailed),
        (GamePhase::Connecting, GameEventAction::ShowConnectFailure { with_error: true })
    );
    assert_eq!(
        GameEventsClient::on_network_event(GamePhase::Idle, NetworkEventKind::ConnectingFailed),
        (GamePhase::Idle, GameEventAction::ShowConnectFailure { with_error: false })
    );
    assert_eq!(
        GameEventsClient::on_network_event(GamePhase::Active, NetworkEventKind::Connected),
        (GamePhase::Active, GameEventAction::LogConnectTime)
    );
}

#[test]
fn loading_a_map_closes_the_ui_and_routes_ingame() {
    let (p, a, u) = on_message(GamePhase::Connecting, ServerMessageKind::ServerInfo);
    assert_eq!((p, a, u), (GamePhase::Loading, PhaseAction::LoadMap, UiEffect::CloseToIngame));
    assert!(u.closes_ui());
    assert_eq!(u.route(), Some("ingame"));
    let (_, _, u) = on_message(GamePhase::WaitingForFirstSnapshot, ServerMessageKind::Load);
    assert_eq!(u, UiEffect::CloseToIngame);
}

#[test]
fn queue_message_routes_to_the_connecting_page() {
    let (p, a, u) = on_message(GamePhase::Connecting, ServerMessageKind::QueueInfo);
    assert_eq!((p, a), (GamePhase::Connecting, PhaseAction::ShowQueue));
    assert!(!u.closes_ui());
    assert_eq!(u.route(), Some("connecting"));
    let (_, _, u) = on_message(GamePhase::Active, ServerMessageKind::Snapshot);
    assert_eq!(u.route(), None);
    let (p, a, u) = on_message(GamePhase::Loading, ServerMessageKind::QueueInfo);
    assert_eq!((p, a, u), (GamePhase::Loading, PhaseAction::Nothing, UiEffect::Unchanged));
}

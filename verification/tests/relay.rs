use desktop_ipc::relay::connected_notification;
use desktop_ipc::relay::disconnected_notification;
use desktop_ipc::relay::relay_step;
use desktop_ipc::relay::RelayAction;
use desktop_ipc::relay::RelayEvent;
use desktop_ipc::relay::RelayState;
use desktop_ipc::relay::POLL_DELAY_MS;
use desktop_ipc::relay::RETRY_DELAY_MS;

#[test]
fn failed_connect_sleeps_full_retry_delay() {
    let (state, actions) = relay_step(RelayState::Disconnected, RelayEvent::ConnectFailed);
    assert_eq!(state, RelayState::Disconnected);
    assert_eq!(actions.len(), 1);
    assert!(matches!(actions[0], RelayAction::SleepMs(ms) if ms == RETRY_DELAY_MS));
    assert!(RETRY_DELAY_MS >= 5000);
}

#[test]
fn no_connected_notification_while_attempts_fail() {
    let mut state = RelayState::Disconnected;
    for _ in 0..10 {
        let (next, actions) = relay_step(state, RelayEvent::ConnectFailed);
        assert!(actions.iter().all(|a| !matches!(a, RelayAction::EmitConnected)));
        state = next;
    }
    assert_eq!(state, RelayState::Disconnected);
}

#[test]
fn successful_connect_emits_connected_once() {
    let (state, actions) = relay_step(RelayState::Disconnected, RelayEvent::ConnectOk);
    assert_eq!(state, RelayState::Connected);
    assert_eq!(actions.len(), 1);
    assert!(matches!(actions[0], RelayAction::EmitConnected));
}

#[test]
fn socket_text_is_relayed_then_polled() {
    let (state, actions) =
        relay_step(RelayState::Connected, RelayEvent::SocketData(b"note".to_vec()));
    assert_eq!(state, RelayState::Connected);
    assert_eq!(actions.len(), 2);
    assert!(matches!(&actions[0], RelayAction::EmitText(t) if t == "note"));
    assert!(matches!(actions[1], RelayAction::SleepMs(ms) if ms == POLL_DELAY_MS));
}

#[test]
fn lossy_decoding_replaces_invalid_bytes() {
    let (_, actions) =
        relay_step(RelayState::Connected, RelayEvent::SocketData(vec![b'a', 0xff, b'b']));
    assert!(matches!(&actions[0], RelayAction::EmitText(t) if t == "a\u{fffd}b"));
}

#[test]
fn closed_socket_disconnects_cancels_and_retries() {
    let (state, actions) = relay_step(RelayState::Connected, RelayEvent::SocketClosed);
    assert_eq!(state, RelayState::Disconnected);
    assert!(matches!(actions[0], RelayAction::EmitDisconnected));
    assert!(matches!(actions[1], RelayAction::CancelForwarder));
    assert!(matches!(actions[2], RelayAction::SleepMs(ms) if ms == RETRY_DELAY_MS));
}

#[test]
fn inbound_text_is_written_to_socket() {
    let (state, actions) =
        relay_step(RelayState::Connected, RelayEvent::Inbound("cmd".to_owned()));
    assert_eq!(state, RelayState::Connected);
    assert_eq!(actions.len(), 1);
    assert!(matches!(&actions[0], RelayAction::WriteSocket(t) if t == "cmd"));
}

#[test]
fn notifications_are_the_protocol_texts() {
    assert_eq!(connected_notification(), "{\"command\":\"connected\"}");
    assert_eq!(disconnected_notification(), "{\"command\":\"disconnected\"}");
}

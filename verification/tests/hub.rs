use desktop_ipc::hub::read_event;
use desktop_ipc::hub::stop;
use desktop_ipc::hub::IpcContext;
use desktop_ipc::hub::MessageType;
use desktop_ipc::hub::ReadOutcome;
use desktop_ipc::hub::ReaderStep;

#[test]
fn broadcast_scenario_two_clients() {
    let mut hub = IpcContext::new();
    let (id_a, ev_a) = hub.accept_connection();
    let (id_b, ev_b) = hub.accept_connection();
    assert_eq!(id_a, 1);
    assert_eq!(id_b, 2);
    assert_eq!(ev_a.kind, MessageType::Connected);
    assert_eq!(ev_b.message, "");

    hub.send("x".to_owned());
    let plan = hub.broadcast_tick();
    assert_eq!(plan.len(), 2);
    assert_eq!(plan[0].client_id, 1);
    assert_eq!(plan[0].message, "x");
    assert_eq!(plan[1].client_id, 2);
    assert_eq!(plan[1].message, "x");

    // Client A disconnects and is pruned; only B receives what follows.
    hub.remove_connection(id_a);
    hub.send("y".to_owned());
    let plan = hub.broadcast_tick();
    assert_eq!(plan.len(), 1);
    assert_eq!(plan[0].client_id, 2);
    assert_eq!(plan[0].message, "y");
}

#[test]
fn broadcast_preserves_enqueue_order() {
    let mut hub = IpcContext::new();
    let (_, _) = hub.accept_connection();
    let (_, _) = hub.accept_connection();
    hub.send("first".to_owned());
    hub.send("second".to_owned());
    let plan = hub.broadcast_tick();
    let got: Vec<(u32, &str)> =
        plan.iter().map(|d| (d.client_id, d.message.as_str())).collect();
    assert_eq!(got, vec![(1, "first"), (2, "first"), (1, "second"), (2, "second")]);
}

#[test]
fn late_client_never_receives_earlier_broadcast() {
    let mut hub = IpcContext::new();
    let (_, _) = hub.accept_connection();
    hub.send("m".to_owned());
    let plan = hub.broadcast_tick();
    assert_eq!(plan.len(), 1);
    // The queue was drained before this client connected.
    let (id_late, _) = hub.accept_connection();
    let plan = hub.broadcast_tick();
    assert!(plan.is_empty());
    hub.send("later".to_owned());
    let plan = hub.broadcast_tick();
    assert!(plan.iter().all(|d| d.message == "later"));
    assert!(plan.iter().any(|d| d.client_id == id_late));
}

#[test]
fn client_ids_strictly_increase_across_reconnects() {
    let mut hub = IpcContext::new();
    let (a, _) = hub.accept_connection();
    hub.remove_connection(a);
    let (b, _) = hub.accept_connection();
    hub.remove_connection(b);
    let (c, _) = hub.accept_connection();
    assert!(a < b && b < c);
    assert_eq!((a, b, c), (1, 2, 3));
}

#[test]
fn empty_tick_delivers_nothing() {
    let mut hub = IpcContext::new();
    let (_, _) = hub.accept_connection();
    assert!(hub.broadcast_tick().is_empty());
}

#[test]
fn read_event_forwards_decoded_text() {
    match read_event(7, ReadOutcome::Data(b"hi".to_vec())) {
        ReaderStep::Deliver(m) => {
            assert_eq!(m.client_id, 7);
            assert_eq!(m.kind, MessageType::Message);
            assert_eq!(m.message, "hi");
        }
        _ => panic!("expected a delivered message"),
    }
}

#[test]
fn read_event_decodes_multibyte_text() {
    match read_event(3, ReadOutcome::Data("héllo".as_bytes().to_vec())) {
        ReaderStep::Deliver(m) => assert_eq!(m.message, "héllo"),
        _ => panic!("expected a delivered message"),
    }
}

#[test]
fn read_event_closed_is_disconnection() {
    match read_event(4, ReadOutcome::Closed) {
        ReaderStep::Disconnected(m) => {
            assert_eq!(m.client_id, 4);
            assert_eq!(m.kind, MessageType::Disconnected);
            assert_eq!(m.message, "");
        }
        _ => panic!("expected a disconnection"),
    }
}

#[test]
fn read_event_error_is_disconnection() {
    assert!(matches!(read_event(4, ReadOutcome::Failed), ReaderStep::Disconnected(_)));
    assert!(matches!(
        read_event(4, ReadOutcome::Data(Vec::new())),
        ReaderStep::Disconnected(_)
    ));
}

#[test]
fn read_event_malformed_utf8_is_fatal() {
    assert!(matches!(
        read_event(5, ReadOutcome::Data(vec![0xc3, 0x28])),
        ReaderStep::Fatal
    ));
}

#[test]
fn stop_is_a_noop_placeholder() {
    assert!(stop().is_ok());
}

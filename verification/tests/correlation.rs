//! The correlation engine: connection lifecycle, id allocation, and the
//! resolution of calls against inbound event sequences.
use editor_core::bridge::{InboundEvent, IpcBridge, RpcError, Step};

fn connected_bridge() -> IpcBridge {
    let mut b = IpcBridge::new();
    b.start_connect();
    b.finish_connect(true);
    b
}

fn text(s: &str) -> InboundEvent {
    InboundEvent::Text(String::from(s))
}

#[test]
fn scenario_stats_call_resolves_with_matching_data() {
    let mut b = connected_bridge();
    let events = vec![text(
        "{\"type\":\"response\",\"id\":\"1\",\"success\":true,\"data\":{\"fps\":60.0}}",
    )];
    let (sent, result) = b.call_with_events("stats.get", "{}", &events);
    assert_eq!(
        sent.as_deref(),
        Some("{\"type\":\"request\",\"id\":\"1\",\"method\":\"stats.get\",\"params\":{}}")
    );
    assert_eq!(result.unwrap(), "{\"fps\":60.0}");
}

#[test]
fn scenario_call_while_disconnected_sends_nothing() {
    let mut b = IpcBridge::new();
    let (sent, result) = b.call_with_events("camera.set", "{\"yaw\":1.0}", &vec![]);
    assert!(sent.is_none());
    assert!(matches!(result, Err(RpcError::NotConnected)));
}

#[test]
fn scenario_remote_failure_surfaces_its_message() {
    let mut b = connected_bridge();
    let events = vec![text(
        "{\"type\":\"response\",\"id\":\"1\",\"success\":false,\"error\":\"bad params\"}",
    )];
    let (_, result) = b.call_with_events("camera.set", "{\"yaw\":1.0}", &events);
    match result {
        Err(RpcError::Remote(m)) => assert_eq!(m, "bad params"),
        _ => panic!("expected a remote error"),
    }
}

#[test]
fn scenario_unmatched_id_is_discarded_and_the_wait_goes_on() {
    let mut b = connected_bridge();
    let events = vec![
        text("{\"type\":\"response\",\"id\":\"99\",\"success\":true,\"data\":\"other\"}"),
        text("{\"type\":\"response\",\"id\":\"1\",\"success\":true,\"data\":\"mine\"}"),
    ];
    let (_, result) = b.call_with_events("stats.get", "{}", &events);
    assert_eq!(result.unwrap(), "\"mine\"");
}

#[test]
fn scenario_close_mid_wait_then_not_connected() {
    let mut b = connected_bridge();
    let (sent, result) = b.call_with_events("stats.get", "{}", &vec![InboundEvent::Closed]);
    assert!(sent.is_some());
    assert!(matches!(result, Err(RpcError::ConnectionClosed)));
    assert!(!b.is_connected());
    let (sent2, result2) = b.call_with_events("stats.get", "{}", &vec![]);
    assert!(sent2.is_none());
    assert!(matches!(result2, Err(RpcError::NotConnected)));
}

#[test]
fn stream_end_without_reply_is_no_response() {
    let mut b = connected_bridge();
    let (_, result) = b.call_with_events("stats.get", "{}", &vec![]);
    assert!(matches!(result, Err(RpcError::NoResponse)));
}

#[test]
fn read_errors_and_malformed_texts_are_transport_failures() {
    let mut b = connected_bridge();
    let (_, result) = b.call_with_events(
        "stats.get",
        "{}",
        &vec![InboundEvent::ReadError(String::from("boom"))],
    );
    match result {
        Err(e @ RpcError::Transport(_)) => {
            assert_eq!(e.message(), "WebSocket error: boom");
        },
        _ => panic!("expected a transport error"),
    }
    let mut b2 = connected_bridge();
    let (_, result2) = b2.call_with_events("stats.get", "{}", &vec![text("garbage")]);
    match result2 {
        Err(e @ RpcError::Transport(_)) => {
            assert_eq!(e.message(), "Malformed response");
        },
        _ => panic!("expected a transport error"),
    }
}

#[test]
fn pings_and_binary_frames_are_ignored() {
    let mut b = connected_bridge();
    let events = vec![
        InboundEvent::Other,
        InboundEvent::Other,
        text("{\"type\":\"response\",\"id\":\"1\",\"success\":true}"),
    ];
    let (_, result) = b.call_with_events("stats.get", "{}", &events);
    assert_eq!(result.unwrap(), "{}");
}

#[test]
fn ids_increase_across_reconnects_and_refused_calls() {
    let mut b = connected_bridge();
    let first = b.begin_call("stats.get", "{}").unwrap();
    assert_eq!(first.id, 1);
    b.disconnect();
    // a refused call still consumes an id
    assert!(b.begin_call("stats.get", "{}").is_err());
    b.start_connect();
    b.finish_connect(true);
    let third = b.begin_call("stats.get", "{}").unwrap();
    assert_eq!(third.id, 3);
}

#[test]
fn disconnect_when_disconnected_is_a_no_op() {
    let mut b = IpcBridge::new();
    assert!(!b.is_connected());
    b.disconnect();
    assert!(!b.is_connected());
    b.disconnect();
    assert!(!b.is_connected());
}

#[test]
fn connecting_twice_leaves_one_live_session() {
    let mut b = IpcBridge::new();
    b.start_connect();
    b.finish_connect(true);
    assert!(b.is_connected());
    b.start_connect();
    assert!(!b.is_connected()); // the first session is released before the second opens
    b.finish_connect(true);
    assert!(b.is_connected());
}

#[test]
fn failed_connect_leaves_the_bridge_disconnected() {
    let mut b = IpcBridge::new();
    b.start_connect();
    b.finish_connect(false);
    assert!(!b.is_connected());
}

#[test]
fn per_event_decisions() {
    let id = String::from("1");
    assert!(matches!(
        editor_core::bridge::process_inbound(&id, &InboundEvent::Other),
        Step::Progress
    ));
    assert!(matches!(
        editor_core::bridge::process_inbound(
            &id,
            &text("{\"type\":\"response\",\"id\":\"2\",\"success\":true}"),
        ),
        Step::Progress
    ));
    match editor_core::bridge::process_inbound(&id, &InboundEvent::Closed) {
        Step::Finished(Err(RpcError::ConnectionClosed)) => {},
        _ => panic!("a close finishes the call"),
    }
}

#[test]
fn error_messages_match_the_caller_facing_strings() {
    assert_eq!(RpcError::NotConnected.message(), "Not connected");
    assert_eq!(RpcError::ConnectionClosed.message(), "Connection closed");
    assert_eq!(RpcError::NoResponse.message(), "No response received");
    assert_eq!(RpcError::Remote(String::from("why")).message(), "why");
    assert_eq!(RpcError::Transport(String::from("io")).message(), "io");
}

#[test]
fn the_wire_carries_what_the_engine_side_expects() {
    let mut b = connected_bridge();
    let pc = b.begin_call("camera.set", "{\"yaw\":1.0}").unwrap();
    let v: serde_json::Value = serde_json::from_str(&pc.wire).expect("well-formed");
    assert_eq!(v["type"], "request");
    assert_eq!(v["id"], "1");
    assert_eq!(v["method"], "camera.set");
    assert_eq!(v["params"]["yaw"], 1.0);
}

#[test]
fn a_failed_connect_does_not_disturb_the_id_counter() {
    let mut b = IpcBridge::new();
    b.start_connect();
    b.finish_connect(false);
    b.start_connect();
    b.finish_connect(true);
    let pc = b.begin_call("stats.get", "{}").unwrap();
    assert_eq!(pc.id, 1);
}

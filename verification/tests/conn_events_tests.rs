use codex_monitor_daemon::conn::{Connection, LineAction};
use codex_monitor_daemon::events::{build_event_notification, EventBus};
use codex_monitor_daemon::json::{Json, JsonNum};

fn obj(fields: Vec<(&str, Json)>) -> Json {
    Json::Obj(fields.into_iter().map(|(k, v)| (k.to_string(), v)).collect())
}

fn get<'a>(j: &'a Json, key: &str) -> &'a Json {
    match j {
        Json::Obj(fields) => {
            for (k, v) in fields {
                if k == key {
                    return v;
                }
            }
            panic!("missing key {key}");
        }
        _ => panic!("not an object"),
    }
}

fn message_of(reply: &Json) -> &str {
    match get(get(reply, "error"), "message") {
        Json::Str(s) => s.as_str(),
        _ => panic!("no error message"),
    }
}

fn envelope(id: u64, method: &str, params: Json) -> Json {
    obj(vec![
        ("id", Json::Num(JsonNum::UInt(id))),
        ("method", Json::Str(method.to_string())),
        ("params", params),
    ])
}

#[test]
fn auth_gate_refuses_other_methods() {
    let token = Some("SECRET-REDACTED".to_string());
    let mut conn = Connection::new(token.is_some());
    assert!(!conn.authenticated);
    match conn.handle_envelope(&token, envelope(1, "list_workspaces", Json::Null)) {
        LineAction::Reply(Some(reply)) => assert_eq!(message_of(&reply), "unauthorized"),
        _ => panic!("unauthenticated dispatch must be refused"),
    }
    assert!(!conn.authenticated);
}

#[test]
fn wrong_token_leaves_the_connection_retryable() {
    let token = Some("SECRET-REDACTED".to_string());
    let mut conn = Connection::new(token.is_some());
    match conn.handle_envelope(&token, envelope(1, "auth", Json::Str("wrong".to_string()))) {
        LineAction::Reply(Some(reply)) => assert_eq!(message_of(&reply), "invalid token"),
        _ => panic!("a wrong token must be refused"),
    }
    assert!(!conn.authenticated);
    // The retry with the right token, offered as an object, succeeds.
    let params = obj(vec![("token", Json::Str("SECRET-REDACTED".to_string()))]);
    match conn.handle_envelope(&token, envelope(2, "auth", params)) {
        LineAction::AuthOk(Some(reply)) => {
            assert!(matches!(get(get(&reply, "result"), "ok"), Json::Bool(true)));
        }
        _ => panic!("the right token must authenticate"),
    }
    assert!(conn.authenticated);
    // From here on, every method is dispatched.
    match conn.handle_envelope(&token, envelope(3, "ping", Json::Null)) {
        LineAction::Dispatch { id, method, .. } => {
            assert_eq!(id, Some(3));
            assert_eq!(method, "ping");
        }
        _ => panic!("authenticated envelopes are dispatched"),
    }
}

#[test]
fn no_token_starts_authenticated() {
    let token: Option<String> = None;
    let mut conn = Connection::new(token.is_some());
    assert!(conn.authenticated);
    match conn.handle_envelope(&token, envelope(1, "ping", Json::Null)) {
        LineAction::Dispatch { method, .. } => assert_eq!(method, "ping"),
        _ => panic!("should dispatch"),
    }
}

#[test]
fn requests_without_id_get_no_reply() {
    let token = Some("SECRET-REDACTED".to_string());
    let mut conn = Connection::new(token.is_some());
    let msg = obj(vec![("method", Json::Str("ping".to_string()))]);
    match conn.handle_envelope(&token, msg) {
        LineAction::Reply(None) => {}
        _ => panic!("an unauthorized request without id gets silence"),
    }
}

#[test]
fn late_subscriber_never_sees_earlier_events() {
    let mut bus = EventBus::new(16);
    bus.emit("E".to_string());
    // A consumer subscribing after E was emitted starts past it.
    let mut late = bus.subscribe();
    assert!(bus.poll(&mut late).is_none());
    // One subscribed before the next event receives it.
    let mut early = bus.subscribe();
    bus.emit("F".to_string());
    assert_eq!(bus.poll(&mut early).as_deref(), Some("F"));
    assert!(bus.poll(&mut early).is_none());
    assert_eq!(bus.poll(&mut late).as_deref(), Some("F"));
}

#[test]
fn lagging_subscriber_drops_a_block_and_resumes() {
    let mut bus = EventBus::new(2);
    let mut sub = bus.subscribe();
    for line in ["a", "b", "c", "d", "e"] {
        bus.emit(line.to_string());
    }
    // Five lines went by with a window of two: the unread ones before
    // the window are dropped as a block and forwarding resumes.
    assert_eq!(bus.poll(&mut sub).as_deref(), Some("d"));
    assert_eq!(bus.poll(&mut sub).as_deref(), Some("e"));
    assert!(bus.poll(&mut sub).is_none());
}

#[test]
fn event_notifications_carry_kind_and_payload() {
    let payload = obj(vec![("line", Json::Str("out".to_string()))]);
    let note = build_event_notification(true, payload);
    match get(&note, "method") {
        Json::Str(s) => assert_eq!(s, "terminal-output"),
        _ => panic!("method should be a string"),
    }
    match get(get(&note, "params"), "line") {
        Json::Str(s) => assert_eq!(s, "out"),
        _ => panic!("payload should pass through"),
    }
    let note = build_event_notification(false, Json::Null);
    match get(&note, "method") {
        Json::Str(s) => assert_eq!(s, "app-server-event"),
        _ => panic!("method should be a string"),
    }
}

use my_notice_app::models::notification::{
    flexible_timestamp, millis_from_epoch, timestamp_from_secs, EventError, Json, Notification, NotificationLevel,
    SseServerEvent, TimestampError,
};

fn obj(members: Vec<(&str, Json)>) -> Json {
    Json::Object(members.into_iter().map(|(k, v)| (k.to_string(), v)).collect())
}

fn s(t: &str) -> Json {
    Json::Str(t.to_string())
}

#[test]
fn level_parse_fallback() {
    assert_eq!(NotificationLevel::parse("SUCCESS"), NotificationLevel::Success);
    assert_eq!(NotificationLevel::parse("  warn "), NotificationLevel::Warning);
    assert_eq!(NotificationLevel::parse("unknown"), NotificationLevel::Info);
}

#[test]
fn level_parse_synonyms() {
    assert_eq!(NotificationLevel::parse("ok"), NotificationLevel::Success);
    assert_eq!(NotificationLevel::parse("Done"), NotificationLevel::Success);
    assert_eq!(NotificationLevel::parse("FAILED"), NotificationLevel::Error);
    assert_eq!(NotificationLevel::parse("fail"), NotificationLevel::Error);
    assert_eq!(NotificationLevel::parse("Warning"), NotificationLevel::Warning);
    assert_eq!(NotificationLevel::parse(""), NotificationLevel::Info);
}

#[test]
fn parse_sse_notification_event() {
    let data = r#"{"id":"n-5","type":"info","title":"t","message":"m"}"#;
    let event = SseServerEvent::parse(Some("notification"), data).unwrap().unwrap();
    match event {
        SseServerEvent::Notification(n) => {
            assert_eq!(n.get("id").and_then(|v| v.as_str()), Some("n-5"))
        }
        other => panic!("expected notification, got {other:?}"),
    }
}

#[test]
fn parse_sse_read_event() {
    let event = SseServerEvent::parse(Some("read"), r#"{"id":"n-9"}"#).unwrap().unwrap();
    assert_eq!(event, SseServerEvent::Read { id: "n-9".into() });
}

#[test]
fn parse_sse_connected_event() {
    let event = SseServerEvent::parse(
        Some("connected"),
        r#"{"server_time":"2026-08-17T00:00:00Z"}"#,
    )
    .unwrap()
    .unwrap();
    assert!(matches!(event, SseServerEvent::Connected { .. }));
    assert_eq!(
        event,
        SseServerEvent::Connected { server_time: Some("2026-08-17T00:00:00Z".into()) }
    );
}

#[test]
fn parse_sse_ping_event() {
    let event = SseServerEvent::parse(Some("ping"), r#"{}"#).unwrap().unwrap();
    assert_eq!(event, SseServerEvent::Ping);
}

#[test]
fn parse_raw_notification_without_event_name() {
    let data = r#"{"id":"n-6","title":"直接推送","message":"无事件名的裸报文","type":"error"}"#;
    let event = SseServerEvent::parse(None, data).unwrap().unwrap();
    assert!(matches!(event, SseServerEvent::Notification(_)));
}

#[test]
fn empty_data_is_ignored() {
    assert!(SseServerEvent::parse(Some("notification"), " ").unwrap().is_none());
}

#[test]
fn malformed_data_returns_error() {
    assert!(SseServerEvent::parse(Some("notification"), "{ not json").is_err());
}

#[test]
fn read_event_ids_and_errors() {
    let e = SseServerEvent::parse(Some(" read "), r#"{"notification_id":42}"#).unwrap().unwrap();
    assert_eq!(e, SseServerEvent::Read { id: "42".into() });
    let e = SseServerEvent::parse(Some("read"), r#"{"id":true}"#).unwrap().unwrap();
    assert_eq!(e, SseServerEvent::Read { id: "true".into() });
    let e = SseServerEvent::parse(Some("read"), r#"{"x":1}"#).unwrap_err();
    assert_eq!(e, EventError::MissingField);
}

#[test]
fn other_event_names() {
    for name in ["read_all", "readAll"] {
        assert_eq!(SseServerEvent::parse(Some(name), "{}").unwrap(), Some(SseServerEvent::ReadAll));
    }
    for name in ["clear", "clear_all", "clearAll"] {
        assert_eq!(SseServerEvent::parse(Some(name), "[]").unwrap(), Some(SseServerEvent::Clear));
    }
    for name in ["heartbeat", "keepalive"] {
        assert_eq!(SseServerEvent::parse(Some(name), "1").unwrap(), Some(SseServerEvent::Ping));
    }
    let e = SseServerEvent::parse(Some("ready"), r#"{"time":"t0"}"#).unwrap().unwrap();
    assert_eq!(e, SseServerEvent::Connected { server_time: Some("t0".into()) });
    let e = SseServerEvent::parse(Some("ready"), r#"{"server_time":5,"time":"t0"}"#).unwrap().unwrap();
    assert_eq!(e, SseServerEvent::Connected { server_time: None });
}

#[test]
fn envelope_and_unsupported_payloads() {
    let e = SseServerEvent::parse(None, r#"{"event":"read","data":{"id":"n-1"}}"#).unwrap().unwrap();
    assert_eq!(e, SseServerEvent::Read { id: "n-1".into() });
    let e = SseServerEvent::parse(Some("custom"), r#"{"event":" clear "}"#).unwrap().unwrap();
    assert_eq!(e, SseServerEvent::Ping);
    let e = SseServerEvent::parse(None, r#"{"event":"x","data":{"id":"a","title":"t"}}"#).unwrap().unwrap();
    assert!(matches!(e, SseServerEvent::Notification(_)));
    assert_eq!(SseServerEvent::parse(None, r#"{"foo":1}"#).unwrap_err(), EventError::Unsupported);
    assert_eq!(SseServerEvent::parse(None, r#"{"event":3}"#).unwrap_err(), EventError::Unsupported);
    assert!(matches!(SseServerEvent::parse(None, "nope"), Err(EventError::Json(_))));
}

#[test]
fn flexible_timestamps() {
    let now = 42;
    assert_eq!(flexible_timestamp(&Json::UInt(1_720_000_000_000), now).unwrap(), 1_720_000_000_000);
    assert_eq!(flexible_timestamp(&Json::UInt(1_720_000_000), now).unwrap(), 1_720_000_000_000);
    assert_eq!(flexible_timestamp(&Json::Int(-5), now).unwrap(), -5000);
    assert_eq!(flexible_timestamp(&Json::Null, now).unwrap(), now);
    assert_eq!(flexible_timestamp(&Json::UInt(u64::MAX), now).unwrap(), now);
    assert_eq!(flexible_timestamp(&s("2026-08-17T08:00:00Z"), now).unwrap(), 1_786_953_600_000);
    assert_eq!(flexible_timestamp(&s("2026-08-17 08:00:00.5 +0000"), now).unwrap(), 1_786_953_600_500);
    assert_eq!(flexible_timestamp(&s("2026-08-17 08:00:00"), now).unwrap(), 1_786_953_600_000);
    assert!(matches!(flexible_timestamp(&s("yesterday"), now), Err(TimestampError::UnrecognizedFormat(_))));
    assert!(matches!(flexible_timestamp(&Json::Bool(true), now), Err(TimestampError::UnsupportedValue)));
    assert!(matches!(flexible_timestamp(&Json::Float("1.5".into()), now), Err(TimestampError::Fractional(_))));
    assert_eq!(timestamp_from_secs(1, now), 1000);
    assert_eq!(timestamp_from_secs(i64::MAX, now), now);
}

#[test]
fn json_lookup() {
    let j = obj(vec![("id", s("a")), ("n", Json::UInt(3)), ("m", Json::Int(-2))]);
    assert_eq!(j.get("id").and_then(|v| v.as_str()), Some("a"));
    assert_eq!(j.get("n").and_then(|v| v.as_i64()), Some(3));
    assert_eq!(j.get("m").and_then(|v| v.as_i64()), Some(-2));
    assert!(j.get("zz").is_none());
    assert!(s("x").get("id").is_none());
    assert_eq!(Json::UInt(u64::MAX).as_i64(), None);
}

#[test]
fn new_notification_is_unread() {
    let n = Notification::new("n-1", NotificationLevel::Warning, "t", "m");
    assert_eq!(n.id, "n-1");
    assert_eq!(n.level, NotificationLevel::Warning);
    assert!(!n.read);
    assert_eq!(n.source, "");
    assert_eq!(n.link, None);
    assert!(n.created_at > 0);
}

#[test]
fn wide_timestamps_and_clock_readings() {
    let now = 7;
    assert_eq!(flexible_timestamp(&Json::UInt(8_000_000_000_000_000), now).unwrap(), 8_000_000_000_000_000);
    assert_eq!(flexible_timestamp(&Json::Int(-8_000_000_000_000), now).unwrap(), -8_000_000_000_000_000);
    assert_eq!(millis_from_epoch(None), 0);
    assert_eq!(millis_from_epoch(Some(1_720_000_000_000)), 1_720_000_000_000);
    assert_eq!(millis_from_epoch(Some(u128::MAX)), i64::MAX);
}

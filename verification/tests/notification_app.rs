use my_notice_app::app::{created_text, empty_note, unread_note, Filter, NotificationApp, SseOutcome};
use my_notice_app::models::notification::{EventError, Json, Notification, NotificationLevel, SseServerEvent};
use my_notice_app::sse::client::{
    attempt_after_close, backoff_delay, backoff_with_jitter, before_attempt, events_url, send_url,
    status_text, ConnectionState, SseClientEvent, SseConfig,
};
use my_notice_app::sse::parser::SseMessage;

fn note(id: &str) -> Notification {
    Notification::new(id, NotificationLevel::Info, "t", "m")
}

fn message(event: Option<&str>, data: &str) -> SseClientEvent {
    SseClientEvent::Message(SseMessage {
        event: event.map(|e| e.to_string()),
        data: data.to_string(),
        id: None,
        retry: None,
    })
}

fn ids(app: &NotificationApp) -> Vec<String> {
    app.visible_notifications().iter().map(|n| n.id.clone()).collect()
}

#[test]
fn new_notifications_go_first_and_replace_by_id() {
    let mut app = NotificationApp::new();
    assert_eq!(app.connection_state, ConnectionState::Disconnected);
    assert_eq!(app.filter, Filter::All);
    app.add_notification(note("a"));
    app.add_notification(note("b"));
    let mut again = note("a");
    again.title = "updated".into();
    app.add_notification(again);
    assert_eq!(ids(&app), vec!["b", "a"]);
    assert_eq!(app.notifications[1].title, "updated");
    assert_eq!(app.unread_count(), 2);
}

#[test]
fn read_filters_and_removal() {
    let mut app = NotificationApp::new();
    for id in ["a", "b", "c"] {
        app.add_notification(note(id));
    }
    app.mark_read("b");
    app.mark_read("missing");
    assert_eq!(app.unread_count(), 2);
    app.filter = Filter::Unread;
    assert_eq!(ids(&app), vec!["c", "a"]);
    app.filter = Filter::Read;
    assert_eq!(ids(&app), vec!["b"]);
    app.filter = Filter::All;
    app.remove("c");
    assert_eq!(ids(&app), vec!["b", "a"]);
    app.mark_all_read();
    assert_eq!(app.unread_count(), 0);
    app.clear_all();
    assert!(app.notifications.is_empty());
}

#[test]
fn server_events_change_the_list() {
    let mut app = NotificationApp::new();
    app.add_notification(note("x"));
    app.add_notification(note("y"));
    assert!(app.apply_server_event(SseServerEvent::Read { id: "x".into() }).is_none());
    assert_eq!(app.unread_count(), 1);
    assert!(app.apply_server_event(SseServerEvent::ReadAll).is_none());
    assert_eq!(app.unread_count(), 0);
    assert!(app.apply_server_event(SseServerEvent::Ping).is_none());
    assert_eq!(app.notifications.len(), 2);
    let j = Json::Object(vec![("id".to_string(), Json::Str("z".into()))]);
    let pending = app.apply_server_event(SseServerEvent::Notification(j));
    assert_eq!(pending, Some(Json::Object(vec![("id".to_string(), Json::Str("z".into()))])));
    assert_eq!(app.notifications.len(), 2);
    assert!(app.apply_server_event(SseServerEvent::Clear).is_none());
    assert!(app.notifications.is_empty());
}

#[test]
fn sse_client_events() {
    let mut app = NotificationApp::new();
    app.add_notification(note("n-1"));
    let out = app.on_sse_event(SseClientEvent::State(ConnectionState::Connected));
    assert!(matches!(out, SseOutcome::Done));
    assert_eq!(app.connection_state, ConnectionState::Connected);

    let out = app.on_sse_event(message(Some("read"), r#"{"id":"n-1"}"#));
    assert!(matches!(out, SseOutcome::Done));
    assert_eq!(app.unread_count(), 0);

    let out = app.on_sse_event(message(Some("notification"), r#"{"id":"n-2","title":"t","message":"m"}"#));
    match out {
        SseOutcome::Decode(j) => assert_eq!(j.get("id").and_then(|v| v.as_str()), Some("n-2")),
        other => panic!("expected a notification, got {other:?}"),
    }

    let out = app.on_sse_event(message(None, "   "));
    assert!(matches!(out, SseOutcome::Done));
    let out = app.on_sse_event(message(Some("read"), "{}"));
    assert!(matches!(out, SseOutcome::Failed(EventError::MissingField)));
    let out = app.on_sse_event(message(None, "{ broken"));
    assert!(matches!(out, SseOutcome::Failed(EventError::Json(_))));
    let out = app.on_sse_event(message(Some("clear"), "{}"));
    assert!(matches!(out, SseOutcome::Done));
    assert!(app.notifications.is_empty());
    assert_eq!(app.connection_state, ConnectionState::Connected);
}

#[test]
fn connection_labels() {
    assert_eq!(ConnectionState::Disconnected.label(), "未连接");
    assert_eq!(ConnectionState::Connecting.label(), "连接中…");
    assert_eq!(ConnectionState::Connected.label(), "已连接");
    assert_eq!(ConnectionState::Reconnecting { attempt: 3 }.label(), "重连中 (第 3 次)");
    assert_eq!(ConnectionState::Error("timeout".into()).label(), "连接异常: timeout");
}

#[test]
fn reconnect_backoff() {
    let c = SseConfig::default();
    assert_eq!((c.heartbeat_timeout, c.backoff_base, c.backoff_max), (45_000, 500, 30_000));
    assert_eq!(backoff_with_jitter(0, &c, 0), 500);
    assert_eq!(backoff_with_jitter(1, &c, 0), 500);
    assert_eq!(backoff_with_jitter(2, &c, 0), 1000);
    assert_eq!(backoff_with_jitter(4, &c, 0), 4000);
    assert_eq!(backoff_with_jitter(7, &c, 0), 30_000);
    assert_eq!(backoff_with_jitter(100, &c, 0), 30_000);
    // jitter: the seed modulo a quarter of the backoff plus one
    assert_eq!(backoff_with_jitter(2, &c, 250), 1250);
    assert_eq!(backoff_with_jitter(2, &c, 251), 1000);
    let small = SseConfig { heartbeat_timeout: 1, backoff_base: 10, backoff_max: 1_000_000 };
    assert_eq!(backoff_with_jitter(3, &small, 0), 400);
    let d = backoff_delay(3, &c);
    assert!((2000..=2500).contains(&d));
}

#[test]
fn reconnect_attempts() {
    let c = SseConfig::default();
    let (pause, next) = before_attempt(0, &c);
    assert!(pause.is_none());
    assert_eq!(next, 1);
    let (pause, next) = before_attempt(2, &c);
    let (state, ms) = pause.unwrap();
    assert_eq!(state, ConnectionState::Reconnecting { attempt: 2 });
    assert!((1000..=1250).contains(&ms));
    assert_eq!(next, 3);
    assert_eq!(attempt_after_close(0), 1);
    assert_eq!(attempt_after_close(1), 1);
    assert_eq!(attempt_after_close(2), 1);
    assert_eq!(attempt_after_close(5), 4);
}

#[test]
fn endpoints() {
    assert_eq!(events_url("http://127.0.0.1:8000"), "http://127.0.0.1:8000/events");
    assert_eq!(send_url("http://127.0.0.1:8000"), "http://127.0.0.1:8000/send");
}

#[test]
fn header_and_toolbar_texts() {
    assert_eq!(status_text(&ConnectionState::Connected), "已连接");
    assert_eq!(status_text(&ConnectionState::Connecting), "连接中…");
    assert_eq!(status_text(&ConnectionState::Reconnecting { attempt: 9 }), "重连中");
    assert_eq!(status_text(&ConnectionState::Error("x".into())), "连接异常");
    assert_eq!(status_text(&ConnectionState::Disconnected), "未连接");
    assert_eq!(unread_note(0), "全部已读");
    assert_eq!(unread_note(12), "12 条未读");
    assert_eq!(empty_note(Filter::All), "暂无通知");
    assert_eq!(empty_note(Filter::Unread), "没有未读通知");
    assert_eq!(empty_note(Filter::Read), "没有已读通知");
}

#[test]
fn metadata_is_kept() {
    let mut app = NotificationApp::new();
    let mut n = note("m");
    n.metadata = Some(Json::Object(vec![("k".to_string(), Json::UInt(1))]));
    app.add_notification(n);
    assert_eq!(app.notifications[0].metadata, Some(Json::Object(vec![("k".to_string(), Json::UInt(1))])));
}

#[test]
fn card_times() {
    assert_eq!(created_text(0, 30_000), "刚刚");
    assert_eq!(created_text(0, 125_000), "2 分钟前");
    assert_eq!(created_text(0, 3 * 86_400_000), "3 天前");
    assert_eq!(created_text(0, 8 * 86_400_000), "01-01 00:00");
    assert_eq!(created_text(90_000, 0), "刚刚");
}

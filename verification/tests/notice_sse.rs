use my_notice_app::notice_sse::{
    dispatch_event, end_of_stream_line, next_line, parse_field, read_line_event, Dispatched,
    LineOutcome, ReaderState, SseClient,
};

#[test]
fn parses_sse_fields() {
    let mut data = Vec::new();
    let mut event = None;
    let mut id = None;

    parse_field(b"event: notice", &mut data, &mut event, &mut id);
    parse_field(b"id: abc-1", &mut data, &mut event, &mut id);
    parse_field(b"data: {\"id\":\"x\"}", &mut data, &mut event, &mut id);
    parse_field(b"data: tail", &mut data, &mut event, &mut id);

    assert_eq!(event.as_deref(), Some("notice"));
    assert_eq!(id.as_deref(), Some("abc-1"));
    assert_eq!(data, vec!["{\"id\":\"x\"}", "tail"]);
}

#[test]
fn parses_field_without_value() {
    let mut data = Vec::new();
    let mut event = None;
    let mut id = None;
    parse_field(b"data:", &mut data, &mut event, &mut id);
    assert_eq!(data, vec![""]);
}

#[test]
fn ignores_nul_in_event_id() {
    let mut data = Vec::new();
    let mut event = None;
    let mut id = Some("old".to_string());
    parse_field(b"id: bad\0id", &mut data, &mut event, &mut id);
    assert_eq!(id.as_deref(), Some("old"));
}

#[test]
fn backoff_grows_exponentially_and_caps() {
    // Waits are in milliseconds: 1 s initial, 30 s at most.
    let client = SseClient::new("http://127.0.0.1:1/events").with_backoff(1000, 30000);
    assert_eq!(client.backoff_for(1), 1000);
    assert_eq!(client.backoff_for(2), 2000);
    assert_eq!(client.backoff_for(3), 4000);
    assert_eq!(client.backoff_for(5), 16000);
    assert_eq!(client.backoff_for(6), 30000);
    assert_eq!(client.backoff_for(99), 30000);
}

#[test]
fn backoff_has_a_floor_of_100_ms() {
    let client = SseClient::new("http://x/events").with_backoff(10, 10);
    assert_eq!(client.backoff_for(0), 100);
    assert_eq!(client.backoff_for(4), 100);
    let client = SseClient::new("http://x/events").with_backoff(u64::MAX, u64::MAX);
    assert_eq!(client.backoff_for(3), u64::MAX);
}

#[test]
fn client_defaults_and_headers() {
    let client = SseClient::new("http://x/events").with_header("Authorization", "Bearer t");
    assert_eq!(client.endpoint(), "http://x/events");
    assert_eq!(client.heartbeat(), 45000);
    assert_eq!(client.header_list().len(), 1);
    assert_eq!(client.header_list()[0].0, "Authorization");
    assert_eq!(client.with_heartbeat_timeout(5).heartbeat(), 5);
}

#[test]
fn field_name_is_trimmed_and_value_loses_trailing_space() {
    let mut data = Vec::new();
    let mut event = None;
    let mut id = None;
    parse_field(b" event :  ping  ", &mut data, &mut event, &mut id);
    assert_eq!(event.as_deref(), Some(" ping"));
    parse_field(b"retry: 10", &mut data, &mut event, &mut id);
    parse_field(b"unknown: x", &mut data, &mut event, &mut id);
    assert!(data.is_empty());
    assert_eq!(id, None);
}

#[test]
fn dispatch_notice_ping_and_raw() {
    let mut data = vec!["{\"id\":\"x\"}".to_string(), "tail".to_string()];
    let mut event = Some("notice".to_string());
    let mut id = Some("7".to_string());
    let mut last = None;
    match dispatch_event(&mut data, &mut event, &mut id, &mut last) {
        Some(Dispatched::Notice { event, id, payload }) => {
            assert_eq!(event.as_deref(), Some("notice"));
            assert_eq!(id.as_deref(), Some("7"));
            assert_eq!(payload, "{\"id\":\"x\"}\ntail");
        }
        other => panic!("unexpected {other:?}"),
    }
    assert!(data.is_empty() && event.is_none() && id.is_none());
    assert_eq!(last.as_deref(), Some("7"));

    let mut data = vec!["x".to_string()];
    let mut event = Some("hello".to_string());
    let mut id = None;
    assert!(matches!(
        dispatch_event(&mut data, &mut event, &mut id, &mut last),
        Some(Dispatched::Ping)
    ));
    assert_eq!(last.as_deref(), Some("7"));

    let mut data = vec!["y".to_string()];
    let mut event = None;
    let mut id = Some("8".to_string());
    match dispatch_event(&mut data, &mut event, &mut id, &mut last) {
        Some(Dispatched::Raw { event, id, data }) => {
            assert_eq!(event, None);
            assert_eq!(id.as_deref(), Some("8"));
            assert_eq!(data, "y");
        }
        other => panic!("unexpected {other:?}"),
    }
    assert_eq!(last.as_deref(), Some("8"));
}

#[test]
fn dispatch_drops_empty_payload() {
    let mut data = vec![String::new()];
    let mut event = Some("notice".to_string());
    let mut id = Some("9".to_string());
    let mut last = Some("1".to_string());
    assert!(dispatch_event(&mut data, &mut event, &mut id, &mut last).is_none());
    assert_eq!(last.as_deref(), Some("1"));
    assert!(event.is_none() && id.is_none());
}

#[test]
fn read_line_splits_crlf_and_flushes_tail() {
    let mut buffer = b"data: a\r\n".to_vec();
    let first = next_line(&mut buffer).unwrap();
    assert_eq!(first, b"data: a".to_vec());
    buffer.extend_from_slice(b"data: b");
    assert!(next_line(&mut buffer).is_none());
    let tail = end_of_stream_line(&mut buffer).unwrap();
    assert_eq!(tail, b"data: b".to_vec());
    assert!(end_of_stream_line(&mut buffer).is_none());
}

#[test]
fn stream_lines_drive_the_reader() {
    let mut st = ReaderState::new();
    assert!(matches!(read_line_event(b": ping", &mut st), LineOutcome::Ping));
    assert!(matches!(read_line_event(b"event: notice", &mut st), LineOutcome::Nothing));
    assert!(matches!(read_line_event(b"id: 7", &mut st), LineOutcome::Nothing));
    assert!(matches!(read_line_event(b"data: {}", &mut st), LineOutcome::Nothing));
    match read_line_event(b"", &mut st) {
        LineOutcome::Event(Dispatched::Notice { event, id, payload }) => {
            assert_eq!(event.as_deref(), Some("notice"));
            assert_eq!(id.as_deref(), Some("7"));
            assert_eq!(payload, "{}");
        }
        other => panic!("expected a notice, got {other:?}"),
    }
    assert_eq!(st.last_event_id.as_deref(), Some("7"));
    assert!(st.data_lines.is_empty() && st.event.is_none() && st.id.is_none());
    // an event without data is dropped and keeps the last id
    assert!(matches!(read_line_event(b"event: x", &mut st), LineOutcome::Nothing));
    assert!(matches!(read_line_event(b"", &mut st), LineOutcome::Nothing));
    assert_eq!(st.last_event_id.as_deref(), Some("7"));
    assert!(st.event.is_none());
    assert!(matches!(read_line_event(b"data: hi", &mut st), LineOutcome::Nothing));
    match read_line_event(b"", &mut st) {
        LineOutcome::Event(Dispatched::Raw { event, id, data }) => {
            assert_eq!(event, None);
            assert_eq!(id, None);
            assert_eq!(data, "hi");
        }
        other => panic!("expected a raw event, got {other:?}"),
    }
}

#[test]
fn stream_request_headers() {
    let client = SseClient::new("http://h/events").with_header("Authorization", "Bearer t");
    let h = client.request_headers(Some("42"));
    let names: Vec<&str> = h.iter().map(|(n, _)| n.as_str()).collect();
    assert_eq!(names, vec!["Accept", "Cache-Control", "Connection", "User-Agent", "Authorization", "Last-Event-ID"]);
    assert_eq!(h[0].1, "text/event-stream");
    assert_eq!(h[1].1, "no-cache");
    assert_eq!(h[2].1, "keep-alive");
    assert_eq!(h[3].1, "my-notice-app/0.1.0");
    assert_eq!(h[4].1, "Bearer t");
    assert_eq!(h[5].1, "42");
    assert_eq!(client.request_headers(None).len(), 5);
}

use my_notice_app::sse::parser::{SseMessage, SseParser};

fn feed_once(parser: &mut SseParser, bytes: &str) -> Vec<SseMessage> {
    parser.feed(bytes.as_bytes());
    parser.drain()
}

#[test]
fn parse_single_event() {
    let mut parser = SseParser::new();
    let msgs = feed_once(&mut parser, "event: notification\ndata: {\"id\":\"1\"}\n\n");
    assert_eq!(msgs.len(), 1);
    assert_eq!(msgs[0].event.as_deref(), Some("notification"));
    assert_eq!(msgs[0].data, r#"{"id":"1"}"#);
}

#[test]
fn parse_multiline_data() {
    let mut parser = SseParser::new();
    let msgs = feed_once(&mut parser, "data: line1\ndata: line2\n\n");
    assert_eq!(msgs.len(), 1);
    assert_eq!(msgs[0].data, "line1\nline2");
}

#[test]
fn parse_multiple_events_in_one_chunk() {
    let mut parser = SseParser::new();
    let msgs = feed_once(&mut parser, "data: a\n\ndata: b\n\n");
    assert_eq!(msgs.len(), 2);
    assert_eq!(msgs[0].data, "a");
    assert_eq!(msgs[1].data, "b");
}

#[test]
fn chunk_boundary_split() {
    let mut parser = SseParser::new();
    // 一行数据被 TCP 分包切成两半：前半到达时不应产生事件。
    assert!(feed_once(&mut parser, "data: hel").is_empty());
    let msgs = feed_once(&mut parser, "lo\n\n");
    assert_eq!(msgs.len(), 1);
    assert_eq!(msgs[0].data, "hello");
}

#[test]
fn comment_lines_are_ignored() {
    let mut parser = SseParser::new();
    let msgs = feed_once(&mut parser, ": keepalive\n\n: another\n");
    assert!(msgs.is_empty());
}

#[test]
fn crlf_line_endings() {
    let mut parser = SseParser::new();
    let msgs = feed_once(&mut parser, "data: hello\r\ndata: world\r\n\r\n");
    assert_eq!(msgs.len(), 1);
    assert_eq!(msgs[0].data, "hello\nworld");
}

#[test]
fn id_and_retry_fields() {
    let mut parser = SseParser::new();
    let msgs = feed_once(&mut parser, "id: 42\nretry: 3000\ndata: x\n\n");
    assert_eq!(msgs.len(), 1);
    assert_eq!(msgs[0].id.as_deref(), Some("42"));
    assert_eq!(msgs[0].retry, Some(3000));
}

#[test]
fn field_without_colon_is_empty_value() {
    let mut parser = SseParser::new();
    let msgs = feed_once(&mut parser, "data\n\n");
    assert_eq!(msgs.len(), 1);
    assert_eq!(msgs[0].data, "");
}

#[test]
fn utf8_multibyte_across_chunks() {
    let mut parser = SseParser::new();
    assert!(feed_once(&mut parser, "data: 你好").is_empty());
    let msgs = feed_once(&mut parser, "世界\n\n");
    assert_eq!(msgs.len(), 1);
    assert_eq!(msgs[0].data, "你好世界");
}

#[test]
fn event_without_data_is_dispatched_when_named() {
    let mut parser = SseParser::new();
    let msgs = feed_once(&mut parser, "event: ping\n\n");
    assert_eq!(msgs.len(), 1);
    assert_eq!(msgs[0].event.as_deref(), Some("ping"));
    assert_eq!(msgs[0].data, "");
}


#[test]
fn chunking_does_not_change_the_events() {
    let stream = "event: a\r\ndata: 1\ndata: 2\n\n: hb\nid: 7\ndata: x\n\n";
    let mut whole = SseParser::new();
    whole.feed(stream.as_bytes());
    let expected = whole.drain();
    for cut in 0..stream.len() {
        let mut p = SseParser::new();
        p.feed(&stream.as_bytes()[..cut]);
        let mut got = p.drain();
        p.feed(&stream.as_bytes()[cut..]);
        got.extend(p.drain());
        assert_eq!(got, expected, "cut at {cut}");
    }
    assert_eq!(expected.len(), 2);
    assert_eq!(expected[0].event.as_deref(), Some("a"));
    assert_eq!(expected[0].data, "1\n2");
    assert_eq!(expected[1].id.as_deref(), Some("7"));
}

#[test]
fn retry_is_trimmed_and_bad_retry_ignored() {
    let mut parser = SseParser::new();
    parser.feed(b"retry:  +15 \ndata: a\n\nretry: x\ndata: b\n\n");
    let msgs = parser.drain();
    assert_eq!(msgs[0].retry, Some(15));
    assert_eq!(msgs[1].retry, None);
}

#[test]
fn fields_reset_after_each_event_and_unknown_fields_ignored() {
    let mut parser = SseParser::new();
    parser.feed(b"id: 1\nfoo: bar\ndata: a\n\ndata: b\n\n");
    let msgs = parser.drain();
    assert_eq!(msgs.len(), 2);
    assert_eq!(msgs[0].id.as_deref(), Some("1"));
    assert_eq!(msgs[1].id, None);
    assert_eq!(msgs[1].event, None);
}

#[test]
fn empty_data_lines_and_blank_only_input() {
    let mut parser = SseParser::new();
    parser.feed(b"\n\ndata:\ndata:\n\n");
    let msgs = parser.drain();
    assert_eq!(msgs.len(), 1);
    assert_eq!(msgs[0].data, "");
    assert!(parser.drain().is_empty());
}

#[test]
fn invalid_utf8_is_replaced() {
    let mut parser = SseParser::new();
    parser.feed(b"data: a\xffb\n\n");
    let msgs = parser.drain();
    assert_eq!(msgs[0].data, "a\u{fffd}b");
}

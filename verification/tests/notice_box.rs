use my_notice_app::notice_app::app::SystemEvent;
use my_notice_app::notice_app::state::{ArgsOutcome, ConnectionState, ListFilter, ServerConfig};
use my_notice_app::notice_app::toast::{hash_id, take_chars, ToastItem, ToastWindow};
use my_notice_app::notice_app::ui::{body_text, connection_text, latest_view, relative_text, summary_text};
use my_notice_app::notice_model::{
    NoticeAuthor, NoticeContent, NoticeInteraction, NoticeKind, NoticeMessage, NoticeMeta,
    NoticePriority, NoticeStatus, NoticeView,
};

/// The sample message of the notice interface, built field by field.
fn sample() -> NoticeMessage {
    NoticeMessage {
        id: "n-20260817-0001".to_string(),
        meta: NoticeMeta {
            kind: NoticeKind::Security,
            status: NoticeStatus::Unread,
            priority: NoticePriority::Urgent,
            channel: "ch-account".to_string(),
            timestamp: 1755398400,
            expirein: Some(1755484800),
        },
        content: NoticeContent {
            title: "异地登录提醒".to_string(),
            summary: Some("您的账号于 08-17 20:00 在异地设备登录。".to_string()),
            body: Some(
                "您的账号于 08-17 20:00 通过 **Chrome** 在 上海 登录。如非本人操作，请立即修改密码。"
                    .to_string(),
            ),
            author: Some(NoticeAuthor {
                name: Some("安全中心".to_string()),
                avatar: Some("att-1001".to_string()),
            }),
            cover: None,
            tags: vec!["账号安全".to_string(), "登录".to_string()],
            entities: vec!["att-1002".to_string()],
        },
        interaction: NoticeInteraction {
            views: vec![NoticeView {
                id: Some("u-001".to_string()),
                timestamp: 1755398500,
                body: Some("安全中心已记录本次事件".to_string()),
            }],
        },
        extra: vec![("riskLevel".to_string(), "\"high\"".to_string())],
    }
}

fn args(list: &[&str]) -> Vec<String> {
    list.iter().map(|s| s.to_string()).collect()
}

#[test]
fn expire_and_read_helpers() {
    let msg = sample();
    assert!(msg.is_unread());
    assert!(!msg.is_read());
    assert!(!msg.is_expired_at(1755399000));
    assert!(msg.is_expired_at(1755484800));
    assert_eq!(
        msg.summary_or_body(),
        Some("您的账号于 08-17 20:00 在异地设备登录。")
    );
}

#[test]
fn message_helpers_on_other_states() {
    let mut msg = sample();
    msg.meta.status = NoticeStatus::Deleted;
    msg.meta.expirein = None;
    msg.content.summary = None;
    assert!(msg.is_deleted());
    assert!(!msg.is_unread());
    assert!(!msg.is_expired_at(i64::MAX));
    assert_eq!(
        msg.summary_or_body(),
        Some("您的账号于 08-17 20:00 通过 **Chrome** 在 上海 登录。如非本人操作，请立即修改密码。")
    );
    msg.content.body = None;
    assert_eq!(msg.summary_or_body(), None);
    msg.meta.status = NoticeStatus::Unknown;
    // an unknown status is handled as read
    assert!(!msg.is_unread() && msg.is_read() && !msg.is_deleted());
}

#[test]
fn display_names_and_defaults() {
    assert_eq!(NoticeKind::Security.display_name(), "安全");
    assert_eq!(NoticeKind::Unknown.display_name(), "其他");
    assert_eq!(NoticeKind::default(), NoticeKind::Other);
    assert_eq!(NoticePriority::Normal.display_name(), "普通");
    assert_eq!(NoticePriority::Unknown.display_name(), "低");
    assert_eq!(NoticePriority::default(), NoticePriority::Low);
    assert_eq!(NoticeStatus::default(), NoticeStatus::Unread);
    assert!(NoticePriority::High.is_prominent());
    assert!(NoticePriority::Urgent.is_prominent());
    assert!(!NoticePriority::Normal.is_prominent());
    assert!(!NoticePriority::Unknown.is_prominent());
    assert_eq!(ListFilter::All.display_name(), "全部");
}

#[test]
fn command_line_and_environment() {
    match ServerConfig::scan_args(&args(&["app", "--server", "http://a/events"])) {
        ArgsOutcome::Run(Some(u)) => assert_eq!(u, "http://a/events"),
        other => panic!("unexpected {other:?}"),
    }
    match ServerConfig::scan_args(&args(&["app", "--server=http://b", "--server", "http://c"])) {
        ArgsOutcome::Run(Some(u)) => assert_eq!(u, "http://c"),
        other => panic!("unexpected {other:?}"),
    }
    // a trailing `--server` without a value is ignored
    assert!(matches!(ServerConfig::scan_args(&args(&["app", "--server"])), ArgsOutcome::Run(None)));
    assert!(matches!(ServerConfig::scan_args(&args(&["app", "-h"])), ArgsOutcome::Help));
    assert!(matches!(
        ServerConfig::scan_args(&args(&["app", "--server=x", "--help"])),
        ArgsOutcome::Help
    ));
    assert_eq!(ServerConfig::resolve(Some("http://x".into()), Some("http://y".into())).url, "http://x");
    assert_eq!(ServerConfig::resolve(None, Some("http://y".into())).url, "http://y");
    assert_eq!(ServerConfig::resolve(None, None).url, ServerConfig::DEFAULT_URL);
    assert_eq!(ServerConfig::DEFAULT_URL, "http://127.0.0.1:8866/events");
}

#[test]
fn toast_cards() {
    let msg = sample();
    let card = ToastItem::from_notice(&msg, 100);
    assert_eq!(card.id, "n-20260817-0001");
    assert_eq!(card.title, "异地登录提醒");
    assert_eq!(card.summary, "您的账号于 08-17 20:00 在异地设备登录。");
    assert_eq!(card.kind, NoticeKind::Security);
    assert_eq!(card.created_at, 100);

    let mut long = sample();
    long.content.summary = Some("字".repeat(100));
    assert_eq!(ToastItem::from_notice(&long, 0).summary.chars().count(), 80);
    long.content.summary = None;
    long.content.body = None;
    assert_eq!(ToastItem::from_notice(&long, 0).summary, "");

    assert_eq!(take_chars("héllo", 2), "hé");
    assert_eq!(take_chars("ab", 5), "ab");
}

#[test]
fn toast_stack_keeps_four_and_expires() {
    let mut w = ToastWindow::new();
    for i in 0..6 {
        let mut m = sample();
        m.id = format!("t{i}");
        w.push(ToastItem::from_notice(&m, i));
    }
    let ids: Vec<&str> = w.toasts.iter().map(|t| t.id.as_str()).collect();
    assert_eq!(ids, vec!["t2", "t3", "t4", "t5"]);
    // cards live five seconds
    assert!(w.expire(7));
    let ids: Vec<&str> = w.toasts.iter().map(|t| t.id.as_str()).collect();
    assert_eq!(ids, vec!["t3", "t4", "t5"]);
    assert!(!w.expire(7));
    assert!(w.remove("t4"));
    assert!(!w.remove("t4"));
    let ids: Vec<&str> = w.toasts.iter().map(|t| t.id.as_str()).collect();
    assert_eq!(ids, vec!["t3", "t5"]);
    assert!(w.expire(100));
    assert!(w.toasts.is_empty());
}

#[test]
fn toast_ids_hash_with_fnv1a() {
    assert_eq!(hash_id(""), 0xcbf29ce484222325);
    assert_eq!(hash_id("a"), 0xaf63dc4c8601ec8c);
    assert_ne!(hash_id("t1"), hash_id("t2"));
}

#[test]
fn relative_times_up_to_a_week() {
    assert_eq!(relative_text(-5).as_deref(), Some("刚刚"));
    assert_eq!(relative_text(59).as_deref(), Some("刚刚"));
    assert_eq!(relative_text(61).as_deref(), Some("1 分钟前"));
    assert_eq!(relative_text(7199).as_deref(), Some("1 小时前"));
    assert_eq!(relative_text(86400 * 3).as_deref(), Some("3 天前"));
    assert_eq!(relative_text(86400 * 7), None);
}

#[test]
fn list_summaries() {
    let mut msg = sample();
    assert_eq!(summary_text(&msg), "您的账号于 08-17 20:00 在异地设备登录。");
    msg.content.summary = Some("   ".into());
    assert_eq!(summary_text(&msg), "（无摘要）");
    msg.content.summary = None;
    msg.content.body = None;
    assert_eq!(summary_text(&msg), "（无摘要）");
    msg.content.summary = Some(format!("  {}  ", "a".repeat(61)));
    assert_eq!(summary_text(&msg), format!("{}…", "a".repeat(60)));
    msg.content.summary = Some("b".repeat(60));
    assert_eq!(summary_text(&msg), "b".repeat(60));
}

#[test]
fn connection_status_texts() {
    assert_eq!(connection_text(&ConnectionState::Connecting), "连接中…");
    assert_eq!(connection_text(&ConnectionState::Connected), "已连接");
    assert_eq!(connection_text(&ConnectionState::Reconnecting { attempt: 12 }), "重连中…(第 12 次)");
    assert_eq!(connection_text(&ConnectionState::Disconnected), "已断开，等待重连");
}

#[test]
fn system_events_are_plain_values() {
    let e = SystemEvent::ShowMainWindow;
    assert!(matches!(e, SystemEvent::ShowMainWindow));
}

#[test]
fn detail_texts() {
    let mut msg = sample();
    assert_eq!(
        body_text(&msg),
        "您的账号于 08-17 20:00 通过 **Chrome** 在 上海 登录。如非本人操作，请立即修改密码。"
    );
    assert_eq!(
        latest_view(&msg, "2025-08-17 10:41:40").as_deref(),
        Some("最近浏览（2025-08-17 10:41:40）：安全中心已记录本次事件")
    );
    msg.content.body = None;
    assert_eq!(body_text(&msg), "您的账号于 08-17 20:00 在异地设备登录。");
    msg.content.summary = None;
    assert_eq!(body_text(&msg), "（本条通知没有正文内容）");
    msg.interaction.views[0].body = Some(String::new());
    assert_eq!(latest_view(&msg, "t").as_deref(), Some("最近浏览：t"));
    msg.interaction.views[0].body = None;
    assert_eq!(latest_view(&msg, "t").as_deref(), Some("最近浏览：t"));
    msg.interaction.views.clear();
    assert_eq!(latest_view(&msg, "t"), None);
}

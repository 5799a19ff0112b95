use my_notice_app::notice_app::state::{ListAction, ListFilter, NoticeStore, ServerConfig};
use my_notice_app::notice_model::{
    NoticeContent, NoticeInteraction, NoticeKind, NoticeMessage, NoticeMeta, NoticePriority,
    NoticeStatus,
};
use my_notice_app::notice_sse::SseEvent;

fn make_notice(
    id: &str,
    kind: NoticeKind,
    status: NoticeStatus,
    timestamp: i64,
) -> NoticeMessage {
    NoticeMessage {
        id: id.to_string(),
        meta: NoticeMeta {
            kind,
            status,
            priority: NoticePriority::Low,
            channel: "test-channel".to_string(),
            timestamp,
            expirein: None,
        },
        content: NoticeContent {
            title: format!("标题 {id}"),
            summary: None,
            body: None,
            author: None,
            cover: None,
            tags: vec![],
            entities: vec![],
        },
        interaction: NoticeInteraction { views: vec![] },
        extra: Default::default(),
    }
}

fn notice_event(message: NoticeMessage) -> SseEvent {
    SseEvent::Notice(message)
}

#[test]
fn upsert_dedupes_and_sorts_desc() {
    let mut store = NoticeStore::default();
    store.handle_event(
        notice_event(make_notice(
            "a",
            NoticeKind::System,
            NoticeStatus::Unread,
            100,
        )),
        1000,
    );
    store.handle_event(
        notice_event(make_notice(
            "b",
            NoticeKind::System,
            NoticeStatus::Unread,
            300,
        )),
        1000,
    );
    store.handle_event(
        notice_event(make_notice(
            "c",
            NoticeKind::System,
            NoticeStatus::Unread,
            200,
        )),
        1000,
    );
    // 重复 id：更新而非新增
    let change = store.handle_event(
        notice_event(make_notice(
            "b",
            NoticeKind::System,
            NoticeStatus::Read,
            300,
        )),
        1000,
    );
    assert!(change.added.is_none());

    let ids: Vec<&str> = store.items.iter().map(|m| m.id.as_str()).collect();
    assert_eq!(ids, vec!["b", "c", "a"]);
    assert_eq!(store.items.len(), 3);
    assert_eq!(store.unread_count, 2);
}

#[test]
fn deleted_notice_is_removed() {
    let mut store = NoticeStore::default();
    store.handle_event(
        notice_event(make_notice(
            "a",
            NoticeKind::System,
            NoticeStatus::Unread,
            100,
        )),
        1000,
    );
    store.handle_event(
        notice_event(make_notice(
            "a",
            NoticeKind::System,
            NoticeStatus::Deleted,
            100,
        )),
        1000,
    );
    assert!(store.items.is_empty());
}

#[test]
fn mark_read_and_clear_read() {
    let mut store = NoticeStore::default();
    store.handle_event(
        notice_event(make_notice(
            "a",
            NoticeKind::System,
            NoticeStatus::Unread,
            100,
        )),
        1000,
    );
    store.handle_event(
        notice_event(make_notice(
            "b",
            NoticeKind::System,
            NoticeStatus::Unread,
            200,
        )),
        1000,
    );

    assert!(store.mark_read("a", 1000));
    assert_eq!(store.unread_count, 1);
    assert!(!store.mark_read("a", 1000), "重复标记应返回 false");

    store.filter = ListFilter::Read;
    let shown = store.filtered_items(1000);
    assert_eq!(shown.len(), 1);
    assert_eq!(shown[0].id, "a");

    assert!(store.clear_read());
    assert_eq!(store.items.len(), 1);
    assert_eq!(store.unread_count, 1);
}

#[test]
fn mark_all_read() {
    let mut store = NoticeStore::default();
    store.handle_event(
        notice_event(make_notice(
            "a",
            NoticeKind::System,
            NoticeStatus::Unread,
            100,
        )),
        1000,
    );
    store.handle_event(
        notice_event(make_notice(
            "b",
            NoticeKind::System,
            NoticeStatus::Read,
            200,
        )),
        1000,
    );
    assert!(store.mark_all_read(1000));
    assert_eq!(store.unread_count, 0);
}

#[test]
fn expired_items_are_hidden_from_display_and_counts() {
    let mut store = NoticeStore::default();
    let mut msg = make_notice("expired", NoticeKind::System, NoticeStatus::Unread, 100);
    msg.meta.expirein = Some(500);
    store.handle_event(notice_event(msg), 1000);
    store.handle_event(
        notice_event(make_notice(
            "alive",
            NoticeKind::System,
            NoticeStatus::Unread,
            200,
        )),
        1000,
    );

    assert_eq!(store.unread_count, 1);
    let shown = store.filtered_items(1000);
    assert_eq!(shown.len(), 1);
    assert_eq!(shown[0].id, "alive");
}

#[test]
fn kind_filter_and_counts() {
    let mut store = NoticeStore::default();
    store.handle_event(
        notice_event(make_notice(
            "a",
            NoticeKind::Security,
            NoticeStatus::Unread,
            100,
        )),
        1000,
    );
    store.handle_event(
        notice_event(make_notice(
            "b",
            NoticeKind::Transaction,
            NoticeStatus::Unread,
            200,
        )),
        1000,
    );
    store.handle_event(
        notice_event(make_notice(
            "c",
            NoticeKind::Security,
            NoticeStatus::Read,
            300,
        )),
        1000,
    );

    assert_eq!(store.kind_count(NoticeKind::Security), Some(2));
    assert_eq!(store.kind_count(NoticeKind::Transaction), Some(1));

    store.filter = ListFilter::Kind(NoticeKind::Security);
    let shown = store.filtered_items(1000);
    assert_eq!(shown.len(), 2);
}

#[test]
fn selected_find_ignores_filter() {
    let mut store = NoticeStore::default();
    store.handle_event(
        notice_event(make_notice(
            "a",
            NoticeKind::System,
            NoticeStatus::Unread,
            100,
        )),
        1000,
    );
    store.filter = ListFilter::Read; // "a" 不在 Read 列表里
    store.selected_id = Some("a".to_string());
    assert!(store.selected().is_some(), "详情面板不应受过滤器限制");
}

#[test]
fn server_config_parses_env_and_default() {
    let config = ServerConfig {
        url: "http://x/events".into(),
    };
    assert_eq!(config.url, "http://x/events");
    assert_eq!(ServerConfig::DEFAULT_URL, "http://127.0.0.1:8866/events");
}


#[test]
fn list_actions_select_and_confirm() {
    let mut store = NoticeStore::default();
    for (id, ts) in [("a", 100), ("b", 300), ("c", 200)] {
        store.handle_event(notice_event(make_notice(id, NoticeKind::System, NoticeStatus::Unread, ts)), 1000);
    }
    // newest first: b, c, a
    assert_eq!(store.selected_row(1000), None);
    assert!(store.on_list_action(ListAction::Select(1), 1000));
    assert_eq!(store.selected_id.as_deref(), Some("c"));
    assert_eq!(store.selected_row(1000), Some(1));
    assert_eq!(store.unread_count, 3);
    assert!(!store.on_list_action(ListAction::Select(7), 1000));
    assert_eq!(store.selected_id.as_deref(), Some("c"));
    assert!(store.on_list_action(ListAction::Confirm(2), 1000));
    assert_eq!(store.selected_id.as_deref(), Some("a"));
    assert_eq!(store.unread_count, 2);
    // confirming again changes nothing but still asks for a refresh
    assert!(store.on_list_action(ListAction::Confirm(2), 1000));
    assert_eq!(store.unread_count, 2);
    assert!(store.on_list_action(ListAction::Confirm(9), 1000));
    assert!(!store.on_list_action(ListAction::Cancel, 1000));
    assert_eq!(store.sidebar_counts(), (3, 1));
    // the selection is not shown under the unread filter
    store.filter = ListFilter::Unread;
    assert_eq!(store.selected_row(1000), None);
}

#[test]
fn equal_times_put_the_latest_first_and_updates_move() {
    let mut store = NoticeStore::default();
    store.handle_event(notice_event(make_notice("a", NoticeKind::System, NoticeStatus::Unread, 100)), 1000);
    let change = store.handle_event(notice_event(make_notice("b", NoticeKind::System, NoticeStatus::Unread, 100)), 1000);
    assert!(change.added.is_some());
    let ids: Vec<&str> = store.items.iter().map(|m| m.id.as_str()).collect();
    assert_eq!(ids, vec!["b", "a"]);

    let mut store = NoticeStore::default();
    store.handle_event(notice_event(make_notice("x", NoticeKind::System, NoticeStatus::Unread, 200)), 1000);
    store.handle_event(notice_event(make_notice("y", NoticeKind::System, NoticeStatus::Unread, 100)), 1000);
    let change = store.handle_event(notice_event(make_notice("y", NoticeKind::System, NoticeStatus::Read, 300)), 1000);
    assert!(change.added.is_none());
    let times: Vec<i64> = store.items.iter().map(|m| m.meta.timestamp).collect();
    assert_eq!(times, vec![300, 200]);
    assert_eq!(store.unread_count, 1);
}

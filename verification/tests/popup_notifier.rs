use my_notice_app::backend::{auth_header, next_since, poll_pause};
use my_notice_app::config::{with_defaults, BackendCfg, Config, FilterCfg};
use my_notice_app::feed::{first_wait, next_wait, with_since};
use my_notice_app::fmt::{decimal_i64, decimal_u64, hex_u64};
use my_notice_app::model::{cat_code, now, passes, secs_from_epoch, IdSequence, prio_code, rel_time, rel_time_at, to_item, to_item_at, Msg, NItem};
use my_notice_app::notifier::Notifier;
use my_notice_app::popup::{screen, PopupMgr};
use my_notice_app::backend::Ev;
use my_notice_app::store::{matches_search, Store};
use my_notice_app::win32::{choose_work_area, work_area, Area};

fn item(id: &str, cat: i32, ts: i32) -> NItem {
    NItem {
        id: id.to_string(),
        title: format!("Title {id}"),
        body: format!("body of {id}"),
        cat,
        prio: 1,
        ts,
        read: false,
        rel: String::new(),
        url: String::new(),
    }
}

#[test]
fn category_and_priority_codes() {
    assert_eq!(cat_code("reminder"), 1);
    assert_eq!(cat_code("system"), 2);
    assert_eq!(cat_code("message"), 0);
    assert_eq!(cat_code("System"), 0);
    assert_eq!(prio_code("normal"), 1);
    assert_eq!(prio_code("high"), 2);
    assert_eq!(prio_code("urgent"), 2);
    assert_eq!(prio_code("low"), 0);
    assert_eq!(prio_code(""), 0);
}

#[test]
fn relative_times() {
    assert_eq!(rel_time_at(1000, 1030), "刚刚");
    assert_eq!(rel_time_at(100, 50), "刚刚");
    assert_eq!(rel_time_at(0, 59), "刚刚");
    assert_eq!(rel_time_at(0, 60), "1 分钟前");
    assert_eq!(rel_time_at(0, 3599), "59 分钟前");
    assert_eq!(rel_time_at(0, 7200), "2 小时前");
    assert_eq!(rel_time_at(0, 90_000), "昨天");
    assert_eq!(rel_time_at(0, 172_800), "2 天前");
    assert_eq!(rel_time_at(0, 259_200), "3 天前");
    assert_eq!(rel_time_at(i64::MIN, i64::MAX), format!("{} 天前", u64::MAX / 86400));
    assert_eq!(rel_time(i64::MAX), "刚刚");
}

#[test]
fn message_becomes_item() {
    let m = Msg {
        id: String::new(),
        title: "t".into(),
        body: "b".into(),
        category: "reminder".into(),
        priority: "urgent".into(),
        url: "http://x".into(),
        ts: 0,
    };
    let it = to_item_at(m, 1000, 31);
    assert_eq!(it.id, "3e8-1f");
    assert_eq!(it.ts, 1000);
    assert_eq!(it.cat, 1);
    assert_eq!(it.prio, 2);
    assert!(!it.read);
    assert_eq!(it.rel, "刚刚");
    assert_eq!(it.url, "http://x");

    let m = Msg { id: "keep".into(), ts: 880, ..Msg::default() };
    let it = to_item_at(m, 1000, 7);
    assert_eq!(it.id, "keep");
    assert_eq!(it.ts, 880);
    assert_eq!(it.rel, "2 分钟前");
    assert_eq!(it.cat, 0);
    assert_eq!(it.prio, 0);

    let mut ids = IdSequence::new();
    let it = to_item(Msg { id: "now".into(), ts: 5, ..Msg::default() }, &mut ids);
    assert_eq!(it.id, "now");
    assert_eq!(it.ts, 5);
    // a message with an id takes no number
    assert_eq!(ids.take(), 1);
    let a = to_item(Msg { ts: 16, ..Msg::default() }, &mut ids);
    let b = to_item(Msg { ts: 16, ..Msg::default() }, &mut ids);
    assert_eq!(a.id, "10-2");
    assert_eq!(b.id, "10-3");
}

#[test]
fn pop_up_filter_rules() {
    let mut it = item("a", 2, 0);
    it.title = "Server DOWN".into();
    it.body = "disk full".into();
    it.prio = 1;
    let mut f = FilterCfg::default();
    assert!(passes(&f, &it));
    f.categories = vec!["reminder".into()];
    assert!(!passes(&f, &it));
    f.categories = vec!["reminder".into(), "system".into()];
    assert!(passes(&f, &it));
    f.min_priority = "high".into();
    assert!(!passes(&f, &it));
    f.min_priority = "normal".into();
    assert!(passes(&f, &it));
    f.block = vec!["Down".into()];
    assert!(!passes(&f, &it));
    f.block = vec!["up".into()];
    f.only = vec!["DISK".into()];
    assert!(passes(&f, &it));
    f.only = vec!["cpu".into()];
    assert!(!passes(&f, &it));
    // the title and body are searched together, joined by a space
    f.only = vec!["down disk".into()];
    assert!(passes(&f, &it));
}

#[test]
fn store_dedupes_and_puts_new_first() {
    let mut s = Store::new();
    s.add(item("a", 0, 10));
    s.add(item("b", 1, 20));
    let mut dup = item("a", 2, 99);
    dup.title = "changed".into();
    s.add(dup);
    assert_eq!(s.total(), 2);
    assert_eq!(s.unread(), 2);
    s.refresh_at(100);
    let ids: Vec<&str> = s.view().iter().map(|x| x.id.as_str()).collect();
    assert_eq!(ids, vec!["b", "a"]);
    assert_eq!(s.view()[1].title, "Title a");
    assert_eq!(s.view()[0].rel, "1 分钟前");
}

#[test]
fn store_keeps_at_most_500() {
    let mut s = Store::new();
    for i in 0..501 {
        s.add(item(&format!("n{i}"), 0, i));
    }
    assert_eq!(s.total(), 500);
    s.refresh_at(0);
    assert_eq!(s.view()[0].id, "n500");
    assert_eq!(s.view()[499].id, "n1");
}

#[test]
fn store_read_remove_and_clear() {
    let mut s = Store::new();
    s.add(item("a", 0, 1));
    s.add(item("b", 0, 2));
    s.add(item("c", 0, 3));
    s.mark_read("b");
    assert_eq!(s.unread(), 2);
    s.mark_read("zz");
    assert_eq!(s.unread(), 2);
    s.remove("a");
    assert_eq!(s.total(), 2);
    s.mark_all();
    assert_eq!(s.unread(), 0);
    s.clear();
    assert_eq!(s.total(), 0);
    // the shown list is only rebuilt by a refresh
    s.refresh_at(10);
    assert!(s.view().is_empty());
}

#[test]
fn store_view_filters_by_category_and_search() {
    let mut s = Store::new();
    s.add(item("a", 0, 1));
    s.add(item("b", 1, 2));
    let mut c = item("c", 1, 3);
    c.body = "Deploy FINISHED".into();
    s.add(c);
    s.set_cat(1);
    s.refresh_at(10);
    let ids: Vec<&str> = s.view().iter().map(|x| x.id.as_str()).collect();
    assert_eq!(ids, vec!["c", "b"]);
    s.set_search("FiNiShEd".into());
    s.refresh_at(10);
    let ids: Vec<&str> = s.view().iter().map(|x| x.id.as_str()).collect();
    assert_eq!(ids, vec!["c"]);
    s.set_cat(-1);
    s.set_search("title".into());
    s.refresh_at(10);
    assert_eq!(s.view().len(), 3);
    s.refresh();
    assert_eq!(s.view().len(), 3);
}

#[test]
fn search_matching() {
    let x = item("q", 0, 0);
    assert!(matches_search(&x, ""));
    assert!(matches_search(&x, "title q"));
    assert!(matches_search(&x, "of q"));
    assert!(!matches_search(&x, "Title"));
    assert!(!matches_search(&x, "nothing"));
}

#[test]
fn popup_queue_shows_one_at_a_time() {
    let mut p = PopupMgr::new(0, 2);
    let shown = p.push(item("a", 0, 0), 1000);
    assert_eq!(shown.map(|x| x.id), Some("a".to_string()));
    assert!(p.push(item("b", 0, 0), 1100).is_none());
    assert!(p.push(item("c", 0, 0), 1200).is_none());
    // the queue is full: `d` is dropped
    assert!(p.push(item("d", 0, 0), 1300).is_none());
    // one second at least
    assert!(!p.tick(1999));
    assert!(p.tick(2000));
    assert!(!p.tick(2001));
    assert_eq!(p.advance(2000).map(|x| x.id), Some("b".to_string()));
    assert_eq!(p.advance(2500).map(|x| x.id), Some("c".to_string()));
    assert!(!p.tick(3499));
    assert!(p.tick(3500));
    assert!(p.advance(3500).is_none());
    assert!(!p.tick(u64::MAX));
    let again = p.push(item("e", 0, 0), 4000);
    assert_eq!(again.map(|x| x.id), Some("e".to_string()));
}

#[test]
fn popup_delay_saturates() {
    let mut p = PopupMgr::new(6, 0);
    assert!(p.push(item("a", 0, 0), u64::MAX - 10).is_some());
    assert!(!p.tick(u64::MAX - 1));
    assert!(p.tick(u64::MAX));
    assert!(p.push(item("b", 0, 0), 0).is_none());
    assert!(p.advance(0).is_none());
}

#[test]
fn screen_and_work_area_fallbacks() {
    assert_eq!(screen(), (1920, 1080));
    let a = work_area();
    assert_eq!((a.l, a.t, a.r, a.b), (0, 0, 1920, 1040));
}

#[test]
fn config_defaults() {
    let b = BackendCfg::defaults();
    assert_eq!(b.mode, "ws");
    assert_eq!(b.url, "ws://127.0.0.1:9000/ws");
    assert_eq!(b.token, "");
    assert_eq!(b.poll_secs, 5);
    let c = Config::default();
    assert_eq!(c.backend.url, "");
    assert!(c.popup.enabled);
    assert_eq!(c.popup.secs, 6);
    assert_eq!(c.popup.max_queue, 10);
    assert!(!c.ui.start_minimized);
    let d = Config::demo();
    assert_eq!(d.backend.url, "ws://127.0.0.1:9000/ws");
    let filled = with_defaults(Config::default());
    assert_eq!(filled.backend.mode, "ws");
    let mut own = Config::default();
    own.backend.url = "http://h/poll".into();
    own.backend.mode = "poll".into();
    let kept = with_defaults(own);
    assert_eq!(kept.backend.url, "http://h/poll");
    assert_eq!(kept.backend.mode, "poll");
}

#[test]
fn feed_waits_and_address() {
    assert_eq!(first_wait(0), 200);
    assert_eq!(first_wait(199), 200);
    assert_eq!(first_wait(1500), 1500);
    assert_eq!(next_wait(200, 1000), 400);
    assert_eq!(next_wait(800, 1000), 1000);
    assert_eq!(next_wait(1000, 1000), 1000);
    // a cap below the current wait keeps the wait
    assert_eq!(next_wait(3000, 1000), 3000);
    assert_eq!(with_since("http://h/api", 42), "http://h/api?since=42");
    assert_eq!(with_since("http://h/api?x=1", -7), "http://h/api?x=1&since=-7");
}

#[test]
fn backend_since_and_pause() {
    let batch = vec![
        Msg { ts: 50, ..Msg::default() },
        Msg { ts: 70, ..Msg::default() },
        Msg { ts: 60, ..Msg::default() },
    ];
    assert_eq!(next_since(10, &batch), 70);
    assert_eq!(next_since(100, &batch), 100);
    assert_eq!(next_since(5, &Vec::new()), 5);
    assert_eq!(poll_pause(0), 1);
    assert_eq!(poll_pause(9), 9);
}

#[test]
fn number_texts() {
    assert_eq!(decimal_i64(0), "0");
    assert_eq!(decimal_i64(-120), "-120");
    assert_eq!(decimal_i64(i64::MIN), "-9223372036854775808");
    assert_eq!(decimal_u64(u64::MAX), "18446744073709551615");
    assert_eq!(hex_u64(0), "0");
    assert_eq!(hex_u64(255), "ff");
    assert_eq!(hex_u64(0x1a2b), "1a2b");
}

#[test]
fn epoch_seconds() {
    assert_eq!(secs_from_epoch(None), 0);
    assert_eq!(secs_from_epoch(Some(1_755_398_400)), 1_755_398_400);
    assert_eq!(secs_from_epoch(Some(u64::MAX)), i64::MAX);
    assert!(now() > 1_600_000_000);
}

#[test]
fn generated_ids_follow_the_sequence() {
    let mut ids = IdSequence::new();
    let a = ids.take();
    let b = ids.take();
    assert_eq!((a, b), (1, 2));
    let x = to_item_at(Msg { ts: 16, ..Msg::default() }, 0, a);
    let y = to_item_at(Msg { ts: 16, ..Msg::default() }, 0, b);
    assert_eq!(x.id, "10-1");
    assert_eq!(y.id, "10-2");
    assert_ne!(x.id, y.id);
}

#[test]
fn bearer_header() {
    assert_eq!(auth_header(""), None);
    assert_eq!(auth_header("s3"), Some(("Authorization".to_string(), "Bearer s3".to_string())));
}

#[test]
fn work_area_choice() {
    let r = Area { l: 0, t: 0, r: 2560, b: 1400 };
    let a = choose_work_area(Some(r), 2560, 1440);
    assert_eq!((a.l, a.t, a.r, a.b), (0, 0, 2560, 1400));
    let empty = Area { l: 10, t: 0, r: 10, b: 1400 };
    let a = choose_work_area(Some(empty), 2560, 1440);
    assert_eq!((a.l, a.t, a.r, a.b), (0, 0, 2560, 1440));
    let a = choose_work_area(None, 800, 600);
    assert_eq!((a.l, a.t, a.r, a.b), (0, 0, 800, 600));
}

#[test]
fn notifier_drops_what_the_filter_blocks_and_pops_up_the_rest() {
    let mut n = Notifier::new(1, 5);
    let mut f = FilterCfg::default();
    f.block = vec!["spam".into()];
    let spam = Msg { id: "s".into(), title: "Spam offer".into(), ts: 10, ..Msg::default() };
    let real = Msg { id: "r".into(), title: "Build done".into(), ts: 20, ..Msg::default() };
    // blocked: dropped, neither kept nor popped up
    assert!(n.on_event(Ev::N(spam), &f, true, 100, 1000).is_none());
    assert_eq!(n.store.total(), 0);
    let shown = n.on_event(Ev::N(real), &f, true, 100, 1000);
    assert_eq!(shown.map(|x| x.id), Some("r".to_string()));
    assert_eq!(n.store.total(), 1);
    let ids: Vec<&str> = n.store.view().iter().map(|x| x.id.as_str()).collect();
    assert_eq!(ids, vec!["r"]);
    assert!(n.on_event(Ev::St("connected"), &f, true, 100, 1000).is_none());
    // a second message waits behind the first
    let next = Msg { id: "q".into(), title: "Next".into(), ts: 30, ..Msg::default() };
    assert!(n.on_event(Ev::N(next), &f, true, 100, 1100).is_none());
    assert!(n.on_tick(1999).is_none());
    assert_eq!(n.on_tick(2000).map(|x| x.id), Some("q".to_string()));
    assert!(n.on_event(Ev::PopDone, &f, true, 100, 2100).is_none());
    // pop-ups off: nothing pops up, the center still keeps what passes
    let off = Msg { id: "o".into(), title: "Quiet".into(), ts: 40, ..Msg::default() };
    assert!(n.on_event(Ev::N(off), &f, false, 100, 3000).is_none());
    assert_eq!(n.store.total(), 3);
    // blocked case-insensitively, whatever the pop-up switch says
    let loud = Msg { id: "l".into(), title: "SPAM again".into(), ts: 50, ..Msg::default() };
    assert!(n.on_event(Ev::N(loud), &f, false, 100, 3000).is_none());
    assert_eq!(n.store.total(), 3);
    // a message without an id takes the next number
    let anon = Msg { title: "Anon".into(), ts: 16, ..Msg::default() };
    n.on_event(Ev::N(anon), &f, false, 100, 3000);
    assert!(n.store.view().iter().any(|x| x.id == "10-1"));
}

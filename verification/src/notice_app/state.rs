//! Notice-box state: the stored messages, the list filter, read/unread
//! bookkeeping, the connection status and the counters shown beside the list.

use std::rc::Rc;
use vstd::prelude::*;
use crate::notice_model::{
    expired_at, MessageModel, NoticeKind, NoticeMessage, NoticeStatus, kind_name,
};
use crate::notice_sse::SseEvent;
use crate::text::{chars_of, opt_text, prefix_is, str_is, texts};
use vstd::string::{StrSliceExecFns, StringExecFns};

verus! {

/// Server settings (from the command line or the environment).
#[derive(Debug, Clone)]
pub struct ServerConfig {
    pub url: String,
}

impl ServerConfig {
    pub const DEFAULT_URL: &'static str = "http://127.0.0.1:8866/events";

    /// Reads the command line (the program name first): `--server <url>` or
    /// `--server=<url>` names the server, the last one counting; `--help` or
    /// `-h` asks for the usage text.
    pub fn scan_args(args: &Vec<String>) -> (r: ArgsOutcome)
        ensures
            match r {
                ArgsOutcome::Help => scan_spec(texts(args@), 1, None) is None,
                ArgsOutcome::Run(u) => scan_spec(texts(args@), 1, None) == Some(opt_text(u)),
            },
    {
        let ghost a = texts(args@);
        let n = args.len();
        let mut url: Option<String> = None;
        let mut i: usize = 1;
        let server = vec!['-', '-', 's', 'e', 'r', 'v', 'e', 'r'];
        let server_eq = vec!['-', '-', 's', 'e', 'r', 'v', 'e', 'r', '='];
        let help = vec!['-', '-', 'h', 'e', 'l', 'p'];
        let h = vec!['-', 'h'];
        while i < n
            invariant
                n == args@.len(),
                a == texts(args@),
                1 <= i,
                server@ == word_server(),
                server_eq@ == word_server_eq(),
                help@ == word_help(),
                h@ == word_h(),
                scan_spec(a, 1, None) == scan_spec(a, i as int, opt_text(url)),
            decreases n - i + 1,
        {
            let arg = args[i].as_str();
            assert(a[i as int] == arg@);
            let chars = chars_of(arg);
            if str_is(arg, &server) && i + 1 < n {
                assert(a[i + 1] == args@[i + 1]@);
                url = Some(args[i + 1].clone());
                i = i + 2;
                continue;
            }
            if chars.len() >= 9 && prefix_is(&chars, 9, &server_eq) {
                url = Some(arg.substring_char(9, chars.len()).to_owned());
                i = i + 1;
                continue;
            }
            if str_is(arg, &help) || str_is(arg, &h) {
                return ArgsOutcome::Help;
            }
            i = i + 1;
        }
        ArgsOutcome::Run(url)
    }

    /// The server address: from the command line, else from the environment
    /// (`NOTICE_SSE_URL`), else the default.
    pub fn resolve(cli: Option<String>, env: Option<String>) -> (c: ServerConfig)
        ensures
            c.url@ == match cli {
                Some(u) => u@,
                None => match env {
                    Some(e) => e@,
                    None => default_server_url(),
                },
            },
    {
        match cli {
            Some(u) => ServerConfig { url: u },
            None => match env {
                Some(e) => ServerConfig { url: e },
                None => {
                    proof {
                        reveal_strlit("http://127.0.0.1:8866/events");
                    }
                    let u = String::from_str(Self::DEFAULT_URL);
                    assert(u@ =~= default_server_url());
                    ServerConfig { url: u }
                },
            },
        }
    }
}

/// What the command line asks for.
#[derive(Debug)]
pub enum ArgsOutcome {
    /// Print the usage text and stop.
    Help,
    /// Run, with the server named on the command line, if any.
    Run(Option<String>),
}

pub open spec fn default_server_url() -> Seq<char> {
    seq!['h', 't', 't', 'p', ':', '/', '/', '1', '2', '7', '.', '0', '.', '0', '.', '1', ':', '8', '8', '6', '6', '/', 'e', 'v', 'e', 'n', 't', 's']
}

pub open spec fn word_server() -> Seq<char> {
    seq!['-', '-', 's', 'e', 'r', 'v', 'e', 'r']
}

pub open spec fn word_server_eq() -> Seq<char> {
    seq!['-', '-', 's', 'e', 'r', 'v', 'e', 'r', '=']
}

pub open spec fn word_help() -> Seq<char> {
    seq!['-', '-', 'h', 'e', 'l', 'p']
}

pub open spec fn word_h() -> Seq<char> {
    seq!['-', 'h']
}


/// The command line read from argument `i` on, with `url` named so far:
/// `None` when help is asked for, else the server named last.
pub open spec fn scan_spec(args: Seq<Seq<char>>, i: int, url: Option<Seq<char>>) -> Option<Option<Seq<char>>>
    decreases args.len() - i,
{
    if i < 1 || i >= args.len() {
        Some(url)
    } else if args[i] == word_server() && i + 1 < args.len() {
        scan_spec(args, i + 2, Some(args[i + 1]))
    } else if args[i].len() >= 9 && args[i].subrange(0, 9) == word_server_eq() {
        scan_spec(args, i + 1, Some(args[i].subrange(9, args[i].len() as int)))
    } else if args[i] == word_help() || args[i] == word_h() {
        None
    } else {
        scan_spec(args, i + 1, url)
    }
}

/// The list filter.
#[derive(Debug, Clone, Copy, PartialEq, Eq, Structural)]
pub enum ListFilter {
    /// Everything.
    All,
    /// Unread only.
    Unread,
    /// Read only.
    Read,
    /// One kind only.
    Kind(NoticeKind),
}

impl Default for ListFilter {
    fn default() -> (f: Self)
        ensures
            f == ListFilter::All,
    {
        ListFilter::All
    }
}

/// The display name of a filter.
pub open spec fn filter_name(f: ListFilter) -> Seq<char> {
    match f {
        ListFilter::All => seq!['全', '部'],
        ListFilter::Unread => seq!['未', '读'],
        ListFilter::Read => seq!['已', '读'],
        ListFilter::Kind(k) => kind_name(k),
    }
}

impl ListFilter {
    pub fn display_name(&self) -> (name: &'static str)
        ensures
            name@ == filter_name(*self),
    {
        proof {
            reveal_strlit("全部");
            reveal_strlit("未读");
            reveal_strlit("已读");
        }
        match self {
            ListFilter::All => "全部",
            ListFilter::Unread => "未读",
            ListFilter::Read => "已读",
            ListFilter::Kind(kind) => kind.display_name(),
        }
    }
}

/// Connection status as the window shows it.
#[derive(Debug, Clone, PartialEq, Eq, Structural)]
pub enum ConnectionState {
    /// Connecting for the first time.
    Connecting,
    Connected,
    /// Disconnected; reconnect attempt `attempt` is pending.
    Reconnecting { attempt: u32 },
    /// Disconnected, waiting to reconnect.
    Disconnected,
}

impl Default for ConnectionState {
    fn default() -> (s: Self)
        ensures
            s == ConnectionState::Connecting,
    {
        ConnectionState::Connecting
    }
}

/// The outcome of handling one event.
#[derive(Debug)]
pub struct StoreChange {
    /// A message that was new to the store (for the pop-up).
    pub added: Option<Rc<NoticeMessage>>,
    /// Whether anything shown changed.
    pub changed: bool,
}

/// The store: every live message (deleted ones are dropped), the filter, the
/// connection status and the counters.
#[derive(Debug)]
pub struct NoticeStore {
    /// The stored messages, newest first (see [`lemma_upsert_keeps_order`]).
    pub items: Vec<NoticeMessage>,
    /// The current filter.
    pub filter: ListFilter,
    /// The message selected for the detail pane.
    pub selected_id: Option<String>,
    /// The connection status.
    pub connection: ConnectionState,
    /// The latest error.
    pub last_error: Option<String>,
    /// The latest heartbeat (Unix seconds).
    pub last_ping_at: Option<i64>,
    /// Unread, unexpired messages.
    pub unread_count: usize,
    /// Unexpired messages per kind, one slot per kind in declaration order.
    pub kind_counts: Vec<usize>,
}

pub open spec fn views(items: Seq<NoticeMessage>) -> Seq<MessageModel> {
    items.map_values(|m: NoticeMessage| m@)
}

/// No two messages share an id.
pub open spec fn ids_unique(items: Seq<MessageModel>) -> bool {
    forall|i: int, j: int| 0 <= i < items.len() && 0 <= j < items.len() && i != j ==> items[i].id != items[j].id
}

/// Messages sorted newest first.
pub open spec fn newest_first(items: Seq<MessageModel>) -> bool {
    forall|i: int, j: int| 0 <= i < j < items.len() ==> items[i].meta.timestamp >= items[j].meta.timestamp
}

/// No message is marked deleted.
pub open spec fn no_deleted(items: Seq<MessageModel>) -> bool {
    forall|i: int| 0 <= i < items.len() ==> #[trigger] items[i].meta.status != NoticeStatus::Deleted
}

/// `items` without the messages of id `id`.
pub open spec fn without_id(items: Seq<MessageModel>, id: Seq<char>) -> Seq<MessageModel>
    decreases items.len(),
{
    if items.len() == 0 {
        items
    } else if items.last().id == id {
        without_id(items.drop_last(), id)
    } else {
        without_id(items.drop_last(), id).push(items.last())
    }
}

/// `p` is where a message of time `ts` goes: before the first message that
/// is not newer than it, so among equal times the latest arrival comes first.
pub open spec fn is_insert_pos(items: Seq<MessageModel>, ts: i64, p: int) -> bool {
    &&& 0 <= p <= items.len()
    &&& p < items.len() ==> items[p].meta.timestamp <= ts
    &&& forall|j: int| 0 <= j < p ==> items[j].meta.timestamp > ts
}

/// `items` with `m` placed at the position of its time.
pub open spec fn place(items: Seq<MessageModel>, m: MessageModel) -> Seq<MessageModel> {
    items.insert(choose|p: int| is_insert_pos(items, m.meta.timestamp, p), m)
}

pub open spec fn has_id(items: Seq<MessageModel>, id: Seq<char>) -> bool {
    exists|i: int| 0 <= i < items.len() && items[i].id == id
}

pub open spec fn index_of_id(items: Seq<MessageModel>, id: Seq<char>) -> int {
    choose|i: int| 0 <= i < items.len() && items[i].id == id
}

/// Inserting or updating one message. A deleted status removes the message;
/// otherwise the message takes the place of any stored one of its id (the
/// server decides the state) at the position of its time, so that the list
/// stays newest first. The flag says whether the id was new (and the message
/// not deleted).
pub open spec fn upsert_spec(items: Seq<MessageModel>, m: MessageModel) -> (Seq<MessageModel>, bool) {
    if m.meta.status == NoticeStatus::Deleted {
        (without_id(items, m.id), false)
    } else {
        (place(without_id(items, m.id), m), !has_id(items, m.id))
    }
}

pub open spec fn counts_unread(m: MessageModel, now: i64) -> bool {
    !expired_at(m, now) && m.meta.status == NoticeStatus::Unread
}

/// Unread messages that have not expired at `now`.
pub open spec fn unread_at(items: Seq<MessageModel>, now: i64) -> nat
    decreases items.len(),
{
    if items.len() == 0 {
        0
    } else {
        unread_at(items.drop_last(), now) + if counts_unread(items.last(), now) { 1nat } else { 0nat }
    }
}

/// Unexpired messages of kind `k` at `now`.
pub open spec fn of_kind_at(items: Seq<MessageModel>, k: NoticeKind, now: i64) -> nat
    decreases items.len(),
{
    if items.len() == 0 {
        0
    } else {
        of_kind_at(items.drop_last(), k, now) + if !expired_at(items.last(), now) && items.last().meta.kind == k {
            1nat
        } else {
            0nat
        }
    }
}

pub open spec fn kind_slot(k: NoticeKind) -> int {
    match k {
        NoticeKind::System => 0,
        NoticeKind::Interaction => 1,
        NoticeKind::Transaction => 2,
        NoticeKind::Security => 3,
        NoticeKind::Activity => 4,
        NoticeKind::Other => 5,
        NoticeKind::Unknown => 6,
    }
}

fn kind_index(k: NoticeKind) -> (i: usize)
    ensures
        i == kind_slot(k),
{
    match k {
        NoticeKind::System => 0,
        NoticeKind::Interaction => 1,
        NoticeKind::Transaction => 2,
        NoticeKind::Security => 3,
        NoticeKind::Activity => 4,
        NoticeKind::Other => 5,
        NoticeKind::Unknown => 6,
    }
}

/// Whether a message passes the list filter.
pub open spec fn filter_admits(f: ListFilter, m: MessageModel) -> bool {
    match f {
        ListFilter::All => true,
        ListFilter::Unread => m.meta.status == NoticeStatus::Unread,
        ListFilter::Read => m.meta.status == NoticeStatus::Read,
        ListFilter::Kind(k) => m.meta.kind == k,
    }
}

/// The list shown: unexpired messages that pass the filter, in store order.
pub open spec fn shown_at(items: Seq<MessageModel>, f: ListFilter, now: i64) -> Seq<MessageModel>
    decreases items.len(),
{
    if items.len() == 0 {
        Seq::empty()
    } else if !expired_at(items.last(), now) && filter_admits(f, items.last()) {
        shown_at(items.drop_last(), f, now).push(items.last())
    } else {
        shown_at(items.drop_last(), f, now)
    }
}

pub open spec fn rc_views(v: Seq<Rc<NoticeMessage>>) -> Seq<MessageModel> {
    v.map_values(|r: Rc<NoticeMessage>| (*r)@)
}

/// The message of id `id`, if stored.
pub open spec fn lookup(items: Seq<MessageModel>, id: Seq<char>) -> Option<MessageModel> {
    if has_id(items, id) {
        Some(items[index_of_id(items, id)])
    } else {
        None
    }
}

/// `m` marked read when it was unread.
pub open spec fn mark_read_one(m: MessageModel) -> MessageModel {
    if m.meta.status == NoticeStatus::Unread {
        MessageModel { meta: crate::notice_model::MetaModel { status: NoticeStatus::Read, ..m.meta }, ..m }
    } else {
        m
    }
}

proof fn lemma_unread_le(items: Seq<MessageModel>, now: i64)
    ensures
        unread_at(items, now) <= items.len(),
    decreases items.len(),
{
    if items.len() > 0 {
        lemma_unread_le(items.drop_last(), now);
    }
}

proof fn lemma_kind_le(items: Seq<MessageModel>, k: NoticeKind, now: i64)
    ensures
        of_kind_at(items, k, now) <= items.len(),
    decreases items.len(),
{
    if items.len() > 0 {
        lemma_kind_le(items.drop_last(), k, now);
    }
}

proof fn lemma_index_of_id(items: Seq<MessageModel>, id: Seq<char>, i: int)
    requires
        ids_unique(items),
        0 <= i < items.len(),
        items[i].id == id,
    ensures
        has_id(items, id),
        index_of_id(items, id) == i,
{
    assert(has_id(items, id));
}

proof fn lemma_insert_pos_unique(items: Seq<MessageModel>, ts: i64, p: int, q: int)
    requires
        is_insert_pos(items, ts, p),
        is_insert_pos(items, ts, q),
    ensures
        p == q,
{
    if p < q {
        assert(items[p].meta.timestamp > ts);
    } else if q < p {
        assert(items[q].meta.timestamp > ts);
    }
}

proof fn lemma_without_id_unique(items: Seq<MessageModel>, id: Seq<char>)
    requires
        ids_unique(items),
    ensures
        ids_unique(without_id(items, id)),
        forall|i: int| 0 <= i < without_id(items, id).len() ==> without_id(items, id)[i].id != id,
        forall|x: MessageModel| without_id(items, id).contains(x) ==> items.contains(x),
    decreases items.len(),
{
    if items.len() > 0 {
        let rest = items.drop_last();
        assert(ids_unique(rest));
        lemma_without_id_unique(rest, id);
        let w = without_id(rest, id);
        if items.last().id != id {
            assert forall|x: MessageModel| w.push(items.last()).contains(x) implies items.contains(x) by {
                if x == items.last() {
                    assert(items[items.len() - 1] == x);
                } else {
                    let k = choose|k: int| 0 <= k < w.push(items.last()).len() && w.push(items.last())[k] == x;
                    assert(w.contains(x));
                    assert(rest.contains(x));
                    let j = choose|j: int| 0 <= j < rest.len() && rest[j] == x;
                    assert(items[j] == x);
                }
            }
            assert forall|i: int, j: int|
                0 <= i < w.push(items.last()).len() && 0 <= j < w.push(items.last()).len() && i != j
                implies w.push(items.last())[i].id != w.push(items.last())[j].id by {
                if i == w.len() as int || j == w.len() as int {
                    let o = if i == w.len() as int { j } else { i };
                    assert(w.contains(w[o]));
                    assert(rest.contains(w[o]));
                    let k = choose|k: int| 0 <= k < rest.len() && rest[k] == w[o];
                    assert(items[k] == w[o]);
                    assert(k != items.len() - 1);
                }
            }
        } else {
            assert forall|x: MessageModel| w.contains(x) implies items.contains(x) by {
                assert(rest.contains(x));
                let j = choose|j: int| 0 <= j < rest.len() && rest[j] == x;
                assert(items[j] == x);
            }
        }
    }
}

impl NoticeStore {
    /// No two stored messages share an id, the list is newest first and holds
    /// no deleted message; the counters have a slot per kind.
    pub open spec fn wf(&self) -> bool {
        &&& ids_unique(views(self.items@))
        &&& newest_first(views(self.items@))
        &&& no_deleted(views(self.items@))
        &&& self.kind_counts@.len() == 7
    }

    /// The stored messages, in store order.
    pub open spec fn items_view(&self) -> Seq<MessageModel> {
        views(self.items@)
    }

    /// The counters were computed at time `now`.
    pub open spec fn metrics_at(&self, now: i64) -> bool {
        &&& self.unread_count == unread_at(views(self.items@), now)
        &&& forall|k: NoticeKind| #[trigger] self.kind_counts@[kind_slot(k)] == of_kind_at(views(self.items@), k, now)
    }

    /// The count of unexpired messages of a kind at the last recount; `None`
    /// when there is none.
    pub open spec fn kind_count_spec(&self, k: NoticeKind) -> Option<usize> {
        let c = self.kind_counts@[kind_slot(k)];
        if c == 0 { None } else { Some(c) }
    }

    /// The fields other than the messages and counters.
    pub open spec fn same_settings(&self, other: &NoticeStore) -> bool {
        &&& self.filter == other.filter
        &&& self.selected_id == other.selected_id
        &&& self.connection == other.connection
        &&& self.last_error == other.last_error
        &&& self.last_ping_at == other.last_ping_at
    }

    /// An empty store: filter `All`, connecting, no counts.
    pub fn new() -> (s: Self)
        ensures
            s.wf(),
            s.items_view().len() == 0,
            s.filter == ListFilter::All,
            s.selected_id is None,
            s.connection == ConnectionState::Connecting,
            s.last_error is None,
            s.last_ping_at is None,
            s.unread_count == 0,
            forall|now: i64| s.metrics_at(now),
    {
        let s = NoticeStore {
            items: Vec::new(),
            filter: ListFilter::All,
            selected_id: None,
            connection: ConnectionState::Connecting,
            last_error: None,
            last_ping_at: None,
            unread_count: 0,
            kind_counts: vec![0, 0, 0, 0, 0, 0, 0],
        };
        assert forall|now: i64| s.metrics_at(now) by {
            assert(views(s.items@).len() == 0);
            assert forall|k: NoticeKind| #[trigger] s.kind_counts@[kind_slot(k)] == of_kind_at(views(s.items@), k, now) by {
                assert(s.kind_counts@[kind_slot(k)] == 0);
            }
        }
        s
    }

    /// Chooses the list filter; nothing else changes.
    pub fn set_filter(&mut self, filter: ListFilter)
        requires
            old(self).wf(),
        ensures
            final(self).wf(),
            final(self).filter == filter,
            final(self).items == old(self).items,
            final(self).selected_id == old(self).selected_id,
            final(self).connection == old(self).connection,
            final(self).last_error == old(self).last_error,
            final(self).last_ping_at == old(self).last_ping_at,
            final(self).unread_count == old(self).unread_count,
            final(self).kind_counts == old(self).kind_counts,
    {
        self.filter = filter;
    }

    /// The stored messages (deleted ones excluded), in store order.
    pub fn items(&self) -> (r: &Vec<NoticeMessage>)
        ensures
            views(r@) == self.items_view(),
    {
        &self.items
    }

    /// The count of unexpired messages of `kind` at the last recount, `None`
    /// when there is none.
    pub fn kind_count(&self, kind: NoticeKind) -> (r: Option<usize>)
        requires
            self.wf(),
        ensures
            r == self.kind_count_spec(kind),
    {
        let c = self.kind_counts[kind_index(kind)];
        if c == 0 { None } else { Some(c) }
    }

    /// Handles one SSE event and says what changed. The counters are recounted
    /// at `now_unix` whenever something changed.
    pub fn handle_event(&mut self, event: SseEvent, now_unix: i64) -> (change: StoreChange)
        requires
            old(self).wf(),
        ensures
            final(self).wf(),
            change.changed ==> final(self).metrics_at(now_unix),
            match event {
                SseEvent::Connected { .. } => {
                    &&& final(self).connection == ConnectionState::Connected
                    &&& final(self).last_error is None
                    &&& change.changed && change.added is None
                    &&& final(self).items_view() == old(self).items_view()
                },
                SseEvent::Disconnected { reason } => {
                    &&& final(self).connection == ConnectionState::Disconnected
                    &&& final(self).last_error == Some(reason)
                    &&& change.changed && change.added is None
                    &&& final(self).items_view() == old(self).items_view()
                },
                SseEvent::Reconnecting { attempt, .. } => {
                    &&& final(self).connection == (ConnectionState::Reconnecting { attempt })
                    &&& final(self).last_error == old(self).last_error
                    &&& change.changed && change.added is None
                    &&& final(self).items_view() == old(self).items_view()
                },
                SseEvent::Ping => {
                    &&& final(self).last_ping_at == Some(now_unix)
                    &&& final(self).connection == old(self).connection
                    &&& change.changed && change.added is None
                    &&& final(self).items_view() == old(self).items_view()
                },
                SseEvent::Error { message } => {
                    &&& final(self).last_error == Some(message)
                    &&& final(self).connection == old(self).connection
                    &&& change.changed && change.added is None
                    &&& final(self).items_view() == old(self).items_view()
                },
                SseEvent::Notice(message) => {
                    let (items, is_new) = upsert_spec(old(self).items_view(), message@);
                    &&& final(self).items_view() == items
                    &&& final(self).connection == old(self).connection
                    &&& final(self).last_error == old(self).last_error
                    &&& change.changed
                    &&& (is_new ==> (change.added matches Some(a) && (*a)@ == message@))
                    &&& (!is_new ==> change.added is None)
                },
                SseEvent::Raw { .. } => {
                    &&& !change.changed && change.added is None
                    &&& final(self).items_view() == old(self).items_view()
                    &&& final(self).connection == old(self).connection
                    &&& final(self).last_error == old(self).last_error
                    &&& final(self).unread_count == old(self).unread_count
                    &&& final(self).kind_counts == old(self).kind_counts
                },
            },
            final(self).filter == old(self).filter,
            final(self).selected_id == old(self).selected_id,
            !(event is Ping) ==> final(self).last_ping_at == old(self).last_ping_at,
    {
        let mut change = StoreChange { added: None, changed: false };
        match event {
            SseEvent::Connected { .. } => {
                self.connection = ConnectionState::Connected;
                self.last_error = None;
                change.changed = true;
            },
            SseEvent::Disconnected { reason } => {
                self.connection = ConnectionState::Disconnected;
                self.last_error = Some(reason);
                change.changed = true;
            },
            SseEvent::Reconnecting { attempt, .. } => {
                self.connection = ConnectionState::Reconnecting { attempt };
                change.changed = true;
            },
            SseEvent::Ping => {
                self.last_ping_at = Some(now_unix);
                change.changed = true;
            },
            SseEvent::Error { message } => {
                self.last_error = Some(message);
                change.changed = true;
            },
            SseEvent::Notice(message) => {
                let copy = message.clone();
                let is_new = self.upsert(message);
                if is_new {
                    change.added = Some(Rc::new(copy));
                }
                change.changed = true;
            },
            SseEvent::Raw { .. } => {},
        }
        if change.changed {
            self.refresh_metrics(now_unix);
        }
        change
    }

    /// Inserts or updates one message; says whether it was new.
    fn upsert(&mut self, message: NoticeMessage) -> (is_new: bool)
        requires
            old(self).wf(),
        ensures
            final(self).wf(),
            (final(self).items_view(), is_new) == upsert_spec(old(self).items_view(), message@),
            final(self).same_settings(old(self)),
            final(self).unread_count == old(self).unread_count,
            final(self).kind_counts == old(self).kind_counts,
    {
        let ghost old_items = views(self.items@);
        let mut all: Vec<NoticeMessage> = Vec::new();
        std::mem::swap(&mut all, &mut self.items);
        let n = all.len();
        let mut kept: Vec<NoticeMessage> = Vec::new();
        let mut found = false;
        let mut i: usize = 0;
        while i < n
            invariant
                n == all@.len(),
                old_items == views(all@),
                i <= n,
                views(kept@) == without_id(old_items.take(i as int), message@.id),
                found == exists|j: int| 0 <= j < i && old_items[j].id == message@.id,
            decreases n - i,
        {
            assert(old_items.take(i + 1).drop_last() =~= old_items.take(i as int));
            assert(old_items[i as int] == all@[i as int]@);
            let same = all[i].id == message.id;
            proof {
                assert(same == (old_items[i as int].id == message@.id));
                if same {
                    assert(0 <= i < i + 1 && old_items[i as int].id == message@.id);
                } else {
                    assert forall|j: int| 0 <= j < i + 1 && old_items[j].id == message@.id implies j < i by {}
                }
            }
            if same {
                found = true;
            } else {
                kept.push(all[i].clone());
                assert(views(kept@) =~= without_id(old_items.take(i as int), message@.id).push(old_items[i as int]));
            }
            i = i + 1;
        }
        assert(old_items.take(n as int) =~= old_items);
        assert(found == has_id(old_items, message@.id));
        proof {
            lemma_without_id_unique(old_items, message@.id);
        }
        let ghost w = views(kept@);
        proof {
            lemma_upsert_keeps_order(old_items, message@);
            lemma_upsert_no_deleted(old_items, message@);
        }
        if message.is_deleted() {
            self.items = kept;
            return false;
        }
        let len = kept.len();
        let ts = message.meta.timestamp;
        let mut pos: usize = 0;
        while pos < len && kept[pos].meta.timestamp > ts
            invariant
                len == kept@.len(),
                w == views(kept@),
                pos <= len,
                forall|j: int| 0 <= j < pos ==> w[j].meta.timestamp > ts,
            decreases len - pos,
        {
            pos = pos + 1;
        }
        proof {
            assert(is_insert_pos(w, ts, pos as int));
            let c = choose|p: int| is_insert_pos(w, ts, p);
            lemma_insert_pos_unique(w, ts, c, pos as int);
        }
        let ghost mv = message@;
        kept.insert(pos, message);
        assert(views(kept@) =~= w.insert(pos as int, mv));
        proof {
            let v = views(kept@);
            assert forall|a: int, b: int| 0 <= a < v.len() && 0 <= b < v.len() && a != b implies v[a].id != v[b].id by {
                if a != pos as int && b != pos as int {
                    let a0 = if a < pos as int { a } else { a - 1 };
                    let b0 = if b < pos as int { b } else { b - 1 };
                    assert(w[a0].id != w[b0].id);
                } else {
                    let o = if a == pos as int { b } else { a };
                    let o0 = if o < pos as int { o } else { o - 1 };
                    assert(w[o0].id != mv.id);
                }
            }
        }
        self.items = kept;
        !found
    }

    /// Recounts the unread messages and the messages of each kind at `now_unix`.
    fn refresh_metrics(&mut self, now_unix: i64)
        requires
            old(self).wf(),
        ensures
            final(self).wf(),
            final(self).metrics_at(now_unix),
            final(self).items == old(self).items,
            final(self).same_settings(old(self)),
    {
        let ghost v = views(self.items@);
        let n = self.items.len();
        let mut unread: usize = 0;
        let mut counts: Vec<usize> = vec![0, 0, 0, 0, 0, 0, 0];
        let mut i: usize = 0;
        while i < n
            invariant
                n == self.items@.len(),
                v == views(self.items@),
                i <= n,
                unread == unread_at(v.take(i as int), now_unix),
                counts@.len() == 7,
                forall|k: NoticeKind| #[trigger] counts@[kind_slot(k)] == of_kind_at(v.take(i as int), k, now_unix),
            decreases n - i,
        {
            proof {
                assert(v.take(i + 1).drop_last() =~= v.take(i as int));
                lemma_unread_le(v.take(i as int), now_unix);
            }
            let m = &self.items[i];
            let live = !m.is_expired_at(now_unix);
            if live && m.meta.status == NoticeStatus::Unread {
                unread = unread + 1;
            }
            if live {
                let slot = kind_index(m.meta.kind);
                proof {
                    lemma_kind_le(v.take(i as int), m.meta.kind, now_unix);
                }
                let c = counts[slot] + 1;
                counts.set(slot, c);
            }
            proof {
                assert forall|k: NoticeKind| #[trigger] counts@[kind_slot(k)] == of_kind_at(v.take(i + 1), k, now_unix) by {
                    if kind_slot(k) == kind_slot(v[i as int].meta.kind) {
                        assert(k == v[i as int].meta.kind);
                    }
                }
            }
            i = i + 1;
        }
        assert(v.take(n as int) =~= v);
        self.unread_count = unread;
        self.kind_counts = counts;
    }

    /// Marks one message read (locally). `true` when it was unread; then the
    /// counters are recounted at `now_unix`.
    pub fn mark_read(&mut self, id: &str, now_unix: i64) -> (changed: bool)
        requires
            old(self).wf(),
        ensures
            final(self).wf(),
            final(self).same_settings(old(self)),
            changed == (lookup(old(self).items_view(), id@) matches Some(m) && m.meta.status == NoticeStatus::Unread),
            changed ==> final(self).items_view() == old(self).items_view().update(
                index_of_id(old(self).items_view(), id@),
                mark_read_one(old(self).items_view()[index_of_id(old(self).items_view(), id@)]),
            ),
            changed ==> final(self).metrics_at(now_unix),
            !changed ==> final(self).items_view() == old(self).items_view(),
            !changed ==> final(self).unread_count == old(self).unread_count,
            !changed ==> final(self).kind_counts == old(self).kind_counts,
    {
        let ghost old_items = views(self.items@);
        let key = id.to_owned();
        let len = self.items.len();
        let mut i: usize = 0;
        while i < len && !(self.items[i].id == key)
            invariant
                len == self.items@.len(),
                i <= len,
                key@ == id@,
                forall|j: int| 0 <= j < i ==> self.items@[j].id@ != id@,
            decreases len - i,
        {
            i = i + 1;
        }
        if i == len {
            assert(!has_id(old_items, id@));
            return false;
        }
        proof {
            lemma_index_of_id(old_items, id@, i as int);
        }
        if self.items[i].meta.status == NoticeStatus::Unread {
            self.items[i].meta.status = NoticeStatus::Read;
            assert(views(self.items@) =~= old_items.update(i as int, mark_read_one(old_items[i as int])));
            proof {
                let v = views(self.items@);
                assert forall|a: int, b: int| 0 <= a < v.len() && 0 <= b < v.len() && a != b implies v[a].id != v[b].id by {
                    assert(old_items[a].id != old_items[b].id);
                }
            }
            self.refresh_metrics(now_unix);
            true
        } else {
            false
        }
    }

    /// Marks every unread message read. `true` when there was one; then the
    /// counters are recounted at `now_unix`.
    pub fn mark_all_read(&mut self, now_unix: i64) -> (changed: bool)
        requires
            old(self).wf(),
        ensures
            final(self).wf(),
            final(self).same_settings(old(self)),
            final(self).items_view() == old(self).items_view().map_values(|m: MessageModel| mark_read_one(m)),
            changed == exists|i: int| 0 <= i < old(self).items_view().len()
                && #[trigger] old(self).items_view()[i].meta.status == NoticeStatus::Unread,
            changed ==> final(self).metrics_at(now_unix),
            !changed ==> final(self).unread_count == old(self).unread_count,
            !changed ==> final(self).kind_counts == old(self).kind_counts,
    {
        let ghost old_items = views(self.items@);
        let n = self.items.len();
        let mut changed = false;
        let mut i: usize = 0;
        while i < n
            invariant
                n == self.items@.len(),
                n == old_items.len(),
                i <= n,
                self.kind_counts == old(self).kind_counts,
                self.unread_count == old(self).unread_count,
                self.same_settings(old(self)),
                forall|j: int| 0 <= j < i ==> views(self.items@)[j] == mark_read_one(old_items[j]),
                forall|j: int| i <= j < n ==> views(self.items@)[j] == old_items[j],
                changed == exists|j: int| 0 <= j < i && #[trigger] old_items[j].meta.status == NoticeStatus::Unread,
            decreases n - i,
        {
            let ghost before = views(self.items@);
            assert(before[i as int] == old_items[i as int]);
            if self.items[i].meta.status == NoticeStatus::Unread {
                self.items[i].meta.status = NoticeStatus::Read;
                assert(views(self.items@) =~= before.update(i as int, mark_read_one(before[i as int])));
                changed = true;
                assert(old_items[i as int].meta.status == NoticeStatus::Unread);
            } else {
                assert(mark_read_one(before[i as int]) == before[i as int]);
                assert(forall|j: int| 0 <= j < i + 1 && #[trigger] old_items[j].meta.status == NoticeStatus::Unread ==> j < i);
            }
            i = i + 1;
        }
        let ghost mapped = old_items.map_values(|m: MessageModel| mark_read_one(m));
        assert(views(self.items@) =~= mapped);
        proof {
            let v = views(self.items@);
            assert forall|a: int, b: int| 0 <= a < v.len() && 0 <= b < v.len() && a != b implies v[a].id != v[b].id by {
                assert(old_items[a].id != old_items[b].id);
            }
        }
        if changed {
            self.refresh_metrics(now_unix);
        }
        changed
    }

    /// Removes the read messages. `true` when one was removed; then the
    /// counters are recounted at the clock time read.
    pub fn clear_read(&mut self) -> (changed: bool)
        requires
            old(self).wf(),
        ensures
            final(self).wf(),
            final(self).same_settings(old(self)),
            final(self).items_view() == without_read(old(self).items_view()),
            changed == (without_read(old(self).items_view()).len() != old(self).items_view().len()),
            changed ==> exists|t: i64| final(self).metrics_at(t),
            !changed ==> final(self).unread_count == old(self).unread_count,
            !changed ==> final(self).kind_counts == old(self).kind_counts,
    {
        let ghost old_items = views(self.items@);
        let mut all: Vec<NoticeMessage> = Vec::new();
        std::mem::swap(&mut all, &mut self.items);
        let n = all.len();
        let mut kept: Vec<NoticeMessage> = Vec::new();
        let mut i: usize = 0;
        while i < n
            invariant
                n == all@.len(),
                old_items == views(all@),
                i <= n,
                views(kept@) == without_read(old_items.take(i as int)),
            decreases n - i,
        {
            assert(old_items.take(i + 1).drop_last() =~= old_items.take(i as int));
            if !(all[i].meta.status == NoticeStatus::Read) {
                kept.push(all[i].clone());
                assert(views(kept@) =~= without_read(old_items.take(i as int)).push(old_items[i as int]));
            }
            i = i + 1;
        }
        assert(old_items.take(n as int) =~= old_items);
        proof {
            lemma_without_read_sub(old_items);
            lemma_without_read_keeps(old_items);
        }
        let changed = kept.len() != n;
        self.items = kept;
        if changed {
            let now = crate::model::now();
            self.refresh_metrics(now);
        }
        changed
    }

    /// Removes every message. `true` when there was one; then the counters
    /// are recounted at the clock time read.
    pub fn clear_all(&mut self) -> (changed: bool)
        requires
            old(self).wf(),
        ensures
            final(self).wf(),
            final(self).same_settings(old(self)),
            final(self).items_view().len() == 0,
            changed == (old(self).items_view().len() > 0),
            changed ==> final(self).unread_count == 0,
            changed ==> forall|t: i64| final(self).metrics_at(t),
            !changed ==> final(self).unread_count == old(self).unread_count,
            !changed ==> final(self).kind_counts == old(self).kind_counts,
    {
        if self.items.len() == 0 {
            return false;
        }
        self.items.clear();
        assert(views(self.items@) =~= Seq::<MessageModel>::empty());
        let now = crate::model::now();
        self.refresh_metrics(now);
        assert forall|t: i64| self.metrics_at(t) by {
            assert forall|k: NoticeKind| #[trigger] self.kind_counts@[kind_slot(k)] == of_kind_at(views(self.items@), k, t) by {
                assert(self.kind_counts@[kind_slot(k)] == of_kind_at(views(self.items@), k, now));
            }
        }
        true
    }

    /// The list under the current filter: unexpired messages it admits, in
    /// store order.
    pub fn filtered_items(&self, now_unix: i64) -> (r: Vec<Rc<NoticeMessage>>)
        ensures
            rc_views(r@) == shown_at(self.items_view(), self.filter, now_unix),
    {
        let ghost v = views(self.items@);
        let n = self.items.len();
        let mut out: Vec<Rc<NoticeMessage>> = Vec::new();
        let mut i: usize = 0;
        while i < n
            invariant
                n == self.items@.len(),
                v == views(self.items@),
                i <= n,
                rc_views(out@) == shown_at(v.take(i as int), self.filter, now_unix),
            decreases n - i,
        {
            assert(v.take(i + 1).drop_last() =~= v.take(i as int));
            let m = &self.items[i];
            let admitted = match self.filter {
                ListFilter::All => true,
                ListFilter::Unread => m.meta.status == NoticeStatus::Unread,
                ListFilter::Read => m.meta.status == NoticeStatus::Read,
                ListFilter::Kind(kind) => m.meta.kind == kind,
            };
            if !m.is_expired_at(now_unix) && admitted {
                out.push(Rc::new(m.clone()));
                assert(rc_views(out@) =~= shown_at(v.take(i as int), self.filter, now_unix).push(v[i as int]));
            }
            i = i + 1;
        }
        assert(v.take(n as int) =~= v);
        out
    }

    /// The message of id `id`, whatever the filter (for the detail pane).
    pub fn find(&self, id: &str) -> (r: Option<Rc<NoticeMessage>>)
        requires
            self.wf(),
        ensures
            match r {
                Some(m) => lookup(self.items_view(), id@) == Some((*m)@),
                None => lookup(self.items_view(), id@) is None,
            },
    {
        let key = id.to_owned();
        let len = self.items.len();
        let mut i: usize = 0;
        while i < len && !(self.items[i].id == key)
            invariant
                len == self.items@.len(),
                i <= len,
                key@ == id@,
                forall|j: int| 0 <= j < i ==> self.items@[j].id@ != id@,
            decreases len - i,
        {
            i = i + 1;
        }
        if i == len {
            assert(!has_id(self.items_view(), id@));
            return None;
        }
        proof {
            lemma_index_of_id(self.items_view(), id@, i as int);
        }
        Some(Rc::new(self.items[i].clone()))
    }

    /// The selected message, whatever the filter.
    pub fn selected(&self) -> (r: Option<Rc<NoticeMessage>>)
        requires
            self.wf(),
        ensures
            match self.selected_id {
                Some(id) => match r {
                    Some(m) => lookup(self.items_view(), id@) == Some((*m)@),
                    None => lookup(self.items_view(), id@) is None,
                },
                None => r is None,
            },
    {
        match &self.selected_id {
            Some(id) => self.find(id.as_str()),
            None => None,
        }
    }
}

/// What the user did in the list.
#[derive(Debug, Clone, Copy, PartialEq, Eq, Structural)]
pub enum ListAction {
    /// A row was selected (previewed).
    Select(usize),
    /// A row was confirmed (opened): it is selected and marked read.
    Confirm(usize),
    /// The selection was cancelled.
    Cancel,
}

/// The sum of the per-kind counters, stopping at the largest `usize`.
pub open spec fn slot_sum(v: Seq<usize>) -> nat
    decreases v.len(),
{
    if v.len() == 0 {
        0
    } else {
        slot_sum(v.drop_last()) + v.last() as nat
    }
}

/// The position of the first message of id `id` in `v`, if any.
pub open spec fn row_of(v: Seq<MessageModel>, id: Seq<char>, r: Option<usize>) -> bool {
    match r {
        Some(i) => i < v.len() && v[i as int].id == id && forall|j: int| 0 <= j < i ==> v[j].id != id,
        None => forall|j: int| 0 <= j < v.len() ==> v[j].id != id,
    }
}

impl NoticeStore {
    /// The row of the selected message in the list under the current filter
    /// at `now_unix`; `None` when nothing is selected or the selection is not
    /// shown.
    pub fn selected_row(&self, now_unix: i64) -> (r: Option<usize>)
        ensures
            match self.selected_id {
                Some(id) => row_of(shown_at(self.items_view(), self.filter, now_unix), id@, r),
                None => r is None,
            },
    {
        match &self.selected_id {
            None => None,
            Some(id) => {
                let items = self.filtered_items(now_unix);
                let ghost v = shown_at(self.items_view(), self.filter, now_unix);
                let n = items.len();
                let mut i: usize = 0;
                while i < n
                    invariant
                        n == items@.len(),
                        rc_views(items@) == v,
                        v == shown_at(self.items_view(), self.filter, now_unix),
                        self.selected_id == Some(*id),
                        i <= n,
                        forall|j: int| 0 <= j < i ==> v[j].id != id@,
                    decreases n - i,
                {
                    assert(v[i as int] == (*items@[i as int])@);
                    if items[i].id == *id {
                        return Some(i);
                    }
                    i = i + 1;
                }
                None
            },
        }
    }

    /// Handles a list action at `now_unix`: selecting a row of the list under
    /// the current filter selects its message; confirming one also marks it
    /// read. Says whether the list is to be shown anew (always after a
    /// confirmation, after a selection of an existing row).
    pub fn on_list_action(&mut self, action: ListAction, now_unix: i64) -> (refresh: bool)
        requires
            old(self).wf(),
        ensures
            final(self).wf(),
            final(self).filter == old(self).filter,
            final(self).connection == old(self).connection,
            ({
                let shown = shown_at(old(self).items_view(), old(self).filter, now_unix);
                match action {
                    ListAction::Select(row) => if row < shown.len() {
                        &&& refresh
                        &&& final(self).selected_id matches Some(id) && id@ == shown[row as int].id
                        &&& final(self).items_view() == old(self).items_view()
                        &&& final(self).unread_count == old(self).unread_count
                    } else {
                        &&& !refresh
                        &&& final(self).selected_id == old(self).selected_id
                        &&& final(self).items_view() == old(self).items_view()
                        &&& final(self).unread_count == old(self).unread_count
                    },
                    ListAction::Confirm(row) => if row < shown.len() {
                        let id = shown[row as int].id;
                        let marks = lookup(old(self).items_view(), id) matches Some(m) && m.meta.status == NoticeStatus::Unread;
                        &&& refresh
                        &&& final(self).selected_id matches Some(sel) && sel@ == id
                        &&& marks ==> final(self).items_view() == old(self).items_view().update(
                            index_of_id(old(self).items_view(), id),
                            mark_read_one(old(self).items_view()[index_of_id(old(self).items_view(), id)]),
                        )
                        &&& marks ==> final(self).metrics_at(now_unix)
                        &&& !marks ==> final(self).items_view() == old(self).items_view()
                        &&& !marks ==> final(self).unread_count == old(self).unread_count
                    } else {
                        &&& refresh
                        &&& final(self).selected_id == old(self).selected_id
                        &&& final(self).items_view() == old(self).items_view()
                        &&& final(self).unread_count == old(self).unread_count
                    },
                    ListAction::Cancel => {
                        &&& !refresh
                        &&& final(self).selected_id == old(self).selected_id
                        &&& final(self).items_view() == old(self).items_view()
                        &&& final(self).unread_count == old(self).unread_count
                    },
                }
            }),
    {
        let ghost shown = shown_at(self.items_view(), self.filter, now_unix);
        match action {
            ListAction::Select(row) => {
                let items = self.filtered_items(now_unix);
                if row < items.len() {
                    assert(shown[row as int] == (*items@[row as int])@);
                    self.selected_id = Some(items[row].id.clone());
                    true
                } else {
                    false
                }
            },
            ListAction::Confirm(row) => {
                let items = self.filtered_items(now_unix);
                if row < items.len() {
                    assert(shown[row as int] == (*items@[row as int])@);
                    let id = items[row].id.clone();
                    self.selected_id = Some(items[row].id.clone());
                    let _marked = self.mark_read(id.as_str(), now_unix);
                }
                true
            },
            ListAction::Cancel => false,
        }
    }

    /// The counts beside the "all" and "read" filters: every unexpired
    /// message at the last recount (the per-kind counters summed), and those
    /// of them not unread.
    pub fn sidebar_counts(&self) -> (r: (usize, usize))
        ensures
            r.0 == if slot_sum(self.kind_counts@) <= usize::MAX { slot_sum(self.kind_counts@) } else { usize::MAX as nat },
            r.1 == if r.0 >= self.unread_count { r.0 - self.unread_count } else { 0 },
    {
        let n = self.kind_counts.len();
        let mut total: usize = 0;
        let mut i: usize = 0;
        while i < n
            invariant
                n == self.kind_counts@.len(),
                i <= n,
                total == if slot_sum(self.kind_counts@.take(i as int)) <= usize::MAX {
                    slot_sum(self.kind_counts@.take(i as int))
                } else {
                    usize::MAX as nat
                },
            decreases n - i,
        {
            assert(self.kind_counts@.take(i + 1).drop_last() =~= self.kind_counts@.take(i as int));
            total = total.saturating_add(self.kind_counts[i]);
            i = i + 1;
        }
        assert(self.kind_counts@.take(n as int) =~= self.kind_counts@);
        (total, total.saturating_sub(self.unread_count))
    }
}

impl Default for NoticeStore {
    fn default() -> (s: Self)
        ensures
            s.wf(),
            s.items_view().len() == 0,
            s.filter == ListFilter::All,
            s.selected_id is None,
            s.connection == ConnectionState::Connecting,
            s.unread_count == 0,
    {
        NoticeStore::new()
    }
}

/// `items` without the read messages.
pub open spec fn without_read(items: Seq<MessageModel>) -> Seq<MessageModel>
    decreases items.len(),
{
    if items.len() == 0 {
        items
    } else if items.last().meta.status == NoticeStatus::Read {
        without_read(items.drop_last())
    } else {
        without_read(items.drop_last()).push(items.last())
    }
}

proof fn lemma_without_read_sub(items: Seq<MessageModel>)
    requires
        ids_unique(items),
    ensures
        ids_unique(without_read(items)),
        forall|x: MessageModel| without_read(items).contains(x) ==> items.contains(x),
        without_read(items).len() <= items.len(),
    decreases items.len(),
{
    if items.len() > 0 {
        let rest = items.drop_last();
        assert(ids_unique(rest));
        lemma_without_read_sub(rest);
        let w = without_read(rest);
        assert forall|x: MessageModel| w.contains(x) implies items.contains(x) by {
            assert(rest.contains(x));
            let j = choose|j: int| 0 <= j < rest.len() && rest[j] == x;
            assert(items[j] == x);
        }
        if items.last().meta.status != NoticeStatus::Read {
            let w2 = w.push(items.last());
            assert forall|x: MessageModel| w2.contains(x) implies items.contains(x) by {
                if x == items.last() {
                    assert(items[items.len() - 1] == x);
                } else {
                    let k = choose|k: int| 0 <= k < w2.len() && w2[k] == x;
                    assert(w[k] == x);
                    assert(w.contains(x));
                }
            }
            assert forall|i: int, j: int| 0 <= i < w2.len() && 0 <= j < w2.len() && i != j implies w2[i].id != w2[j].id by {
                if i == w.len() as int || j == w.len() as int {
                    let o = if i == w.len() as int { j } else { i };
                    assert(w.contains(w[o]));
                    assert(rest.contains(w[o]));
                    let k = choose|k: int| 0 <= k < rest.len() && rest[k] == w[o];
                    assert(items[k] == w[o]);
                }
            }
        }
    }
}

/// Dropping the read messages keeps the list newest first and free of deleted
/// messages.
proof fn lemma_without_read_keeps(items: Seq<MessageModel>)
    requires
        ids_unique(items),
        newest_first(items),
        no_deleted(items),
    ensures
        newest_first(without_read(items)),
        no_deleted(without_read(items)),
    decreases items.len(),
{
    lemma_without_read_sub(items);
    let w = without_read(items);
    assert forall|i: int| 0 <= i < w.len() implies #[trigger] w[i].meta.status != NoticeStatus::Deleted by {
        assert(w.contains(w[i]));
        assert(items.contains(w[i]));
        let k = choose|k: int| 0 <= k < items.len() && items[k] == w[i];
        assert(items[k].meta.status != NoticeStatus::Deleted);
    }
    if items.len() > 0 {
        let rest = items.drop_last();
        assert(ids_unique(rest));
        assert(no_deleted(rest));
        lemma_without_read_keeps(rest);
        lemma_without_read_sub(rest);
        let wr = without_read(rest);
        if items.last().meta.status != NoticeStatus::Read {
            assert forall|i: int, j: int| 0 <= i < j < wr.push(items.last()).len() implies
                wr.push(items.last())[i].meta.timestamp >= wr.push(items.last())[j].meta.timestamp by {
                if j == wr.len() as int {
                    assert(wr.contains(wr[i]));
                    assert(rest.contains(wr[i]));
                    let k = choose|k: int| 0 <= k < rest.len() && rest[k] == wr[i];
                    assert(items[k] == wr[i]);
                    assert(items[k].meta.timestamp >= items[items.len() - 1].meta.timestamp);
                } else {
                    assert(wr.push(items.last())[i] == wr[i]);
                    assert(wr.push(items.last())[j] == wr[j]);
                }
            }
        }
    }
}

/// Storing or updating a message leaves no deleted message in the list.
proof fn lemma_upsert_no_deleted(items: Seq<MessageModel>, m: MessageModel)
    requires
        ids_unique(items),
        no_deleted(items),
    ensures
        no_deleted(upsert_spec(items, m).0),
{
    lemma_without_id_unique(items, m.id);
    let w = without_id(items, m.id);
    assert forall|i: int| 0 <= i < w.len() implies #[trigger] w[i].meta.status != NoticeStatus::Deleted by {
        assert(w.contains(w[i]));
        assert(items.contains(w[i]));
        let k = choose|k: int| 0 <= k < items.len() && items[k] == w[i];
        assert(items[k].meta.status != NoticeStatus::Deleted);
    }
    if m.meta.status != NoticeStatus::Deleted {
        lemma_insert_pos_exists(w, m.meta.timestamp);
        let q = choose|x: int| is_insert_pos(w, m.meta.timestamp, x);
        let r = w.insert(q, m);
        assert forall|i: int| 0 <= i < r.len() implies #[trigger] r[i].meta.status != NoticeStatus::Deleted by {
            if i < q {
                assert(r[i] == w[i]);
            } else if i > q {
                assert(r[i] == w[i - 1]);
            }
        }
    }
}

/// Removing an id keeps the list newest first.
proof fn lemma_without_id_sorted(items: Seq<MessageModel>, id: Seq<char>)
    requires
        ids_unique(items),
        newest_first(items),
    ensures
        newest_first(without_id(items, id)),
    decreases items.len(),
{
    if items.len() > 0 {
        let rest = items.drop_last();
        assert(ids_unique(rest));
        lemma_without_id_sorted(rest, id);
        lemma_without_id_unique(rest, id);
        let w = without_id(rest, id);
        if items.last().id != id {
            assert forall|i: int, j: int| 0 <= i < j < w.push(items.last()).len() implies
                w.push(items.last())[i].meta.timestamp >= w.push(items.last())[j].meta.timestamp by {
                if j == w.len() as int {
                    assert(w.contains(w[i]));
                    assert(rest.contains(w[i]));
                    let k = choose|k: int| 0 <= k < rest.len() && rest[k] == w[i];
                    assert(items[k] == w[i]);
                    assert(items[k].meta.timestamp >= items[items.len() - 1].meta.timestamp);
                } else {
                    assert(w.push(items.last())[i] == w[i]);
                    assert(w.push(items.last())[j] == w[j]);
                }
            }
        }
    }
}

/// Storing or updating a message keeps the list newest first, and its ids
/// unique.
pub proof fn lemma_upsert_keeps_order(items: Seq<MessageModel>, m: MessageModel)
    requires
        ids_unique(items),
        newest_first(items),
    ensures
        newest_first(upsert_spec(items, m).0),
        ids_unique(upsert_spec(items, m).0),
{
    lemma_without_id_sorted(items, m.id);
    lemma_upsert_keeps_order_ids(items, m);
    lemma_without_id_unique(items, m.id);
    let w = without_id(items, m.id);
    if m.meta.status != NoticeStatus::Deleted {
        let ts = m.meta.timestamp;
        lemma_insert_pos_exists(w, ts);
        let q = choose|x: int| is_insert_pos(w, ts, x);
        let r = w.insert(q, m);
        assert forall|i: int, j: int| 0 <= i < j < r.len() implies r[i].meta.timestamp >= r[j].meta.timestamp by {
            if i < q && j < q {
                assert(r[i] == w[i] && r[j] == w[j]);
            } else if i < q && j == q {
                assert(r[i] == w[i]);
            } else if i < q && j > q {
                assert(r[i] == w[i]);
                assert(r[j] == w[j - 1]);
            } else if i == q {
                assert(r[j] == w[j - 1]);
                assert(w[q].meta.timestamp <= ts);
                assert(w[q].meta.timestamp >= w[j - 1].meta.timestamp);
            } else {
                assert(r[i] == w[i - 1]);
                assert(r[j] == w[j - 1]);
            }
        }
    }
}

proof fn lemma_first_not_newer_exists(items: Seq<MessageModel>, ts: i64)
    requires
        exists|j: int| 0 <= j < items.len() && items[j].meta.timestamp <= ts,
    ensures
        exists|j: int| 0 <= j < items.len() && items[j].meta.timestamp <= ts && forall|k: int| 0 <= k < j ==> items[k].meta.timestamp > ts,
    decreases items.len(),
{
    if items[0].meta.timestamp <= ts {
        assert(forall|k: int| 0 <= k < 0 ==> items[k].meta.timestamp > ts);
    } else {
        let rest = items.drop_first();
        let w = choose|j: int| 0 <= j < items.len() && items[j].meta.timestamp <= ts;
        assert(rest[w - 1].meta.timestamp <= ts);
        lemma_first_not_newer_exists(rest, ts);
        let j = choose|j: int| 0 <= j < rest.len() && rest[j].meta.timestamp <= ts && forall|k: int| 0 <= k < j ==> rest[k].meta.timestamp > ts;
        assert forall|k: int| 0 <= k < j + 1 implies items[k].meta.timestamp > ts by {
            if k > 0 {
                assert(items[k] == rest[k - 1]);
            }
        }
        assert(items[j + 1] == rest[j]);
    }
}

/// Once a live message is stored, looking its id up finds it; once a deleted
/// one is, its id is gone.
pub proof fn lemma_upsert_then_lookup(items: Seq<MessageModel>, m: MessageModel)
    requires
        ids_unique(items),
    ensures
        m.meta.status != NoticeStatus::Deleted ==> lookup(upsert_spec(items, m).0, m.id) == Some(m),
        m.meta.status == NoticeStatus::Deleted ==> lookup(upsert_spec(items, m).0, m.id) is None,
{
    let r = upsert_spec(items, m).0;
    lemma_without_id_unique(items, m.id);
    let w = without_id(items, m.id);
    if m.meta.status == NoticeStatus::Deleted {
        assert(!has_id(r, m.id));
    } else {
        let q = choose|p: int| is_insert_pos(w, m.meta.timestamp, p);
        lemma_insert_pos_exists(w, m.meta.timestamp);
        assert(r[q] == m);
        lemma_upsert_keeps_order_ids(items, m);
        lemma_index_of_id(r, m.id, q);
    }
}

proof fn lemma_upsert_keeps_order_ids(items: Seq<MessageModel>, m: MessageModel)
    requires
        ids_unique(items),
    ensures
        ids_unique(upsert_spec(items, m).0),
{
    lemma_without_id_unique(items, m.id);
    let w = without_id(items, m.id);
    if m.meta.status != NoticeStatus::Deleted {
        lemma_insert_pos_exists(w, m.meta.timestamp);
        let q = choose|x: int| is_insert_pos(w, m.meta.timestamp, x);
        let r = w.insert(q, m);
        assert forall|a: int, b: int| 0 <= a < r.len() && 0 <= b < r.len() && a != b implies r[a].id != r[b].id by {
            if a != q && b != q {
                let a0 = if a < q { a } else { a - 1 };
                let b0 = if b < q { b } else { b - 1 };
                assert(w[a0].id != w[b0].id);
            } else {
                let o = if a == q { b } else { a };
                let o0 = if o < q { o } else { o - 1 };
                assert(w[o0].id != m.id);
            }
        }
    }
}

proof fn lemma_insert_pos_exists(items: Seq<MessageModel>, ts: i64)
    ensures
        exists|p: int| is_insert_pos(items, ts, p),
{
    if exists|j: int| 0 <= j < items.len() && items[j].meta.timestamp <= ts {
        lemma_first_not_newer_exists(items, ts);
        let j = choose|j: int| 0 <= j < items.len() && items[j].meta.timestamp <= ts && forall|k: int| 0 <= k < j ==> items[k].meta.timestamp > ts;
        assert(is_insert_pos(items, ts, j));
    } else {
        assert(is_insert_pos(items, ts, items.len() as int));
    }
}

/// Marking read is idempotent: after a message was marked, it is no longer
/// unread, so marking it again changes nothing.
pub proof fn lemma_mark_read_idempotent(items: Seq<MessageModel>, id: Seq<char>)
    requires
        ids_unique(items),
        has_id(items, id),
    ensures
        ({
            let i = index_of_id(items, id);
            let after = items.update(i, mark_read_one(items[i]));
            lookup(after, id) matches Some(m) && m.meta.status != NoticeStatus::Unread
        }),
{
    let i = index_of_id(items, id);
    let after = items.update(i, mark_read_one(items[i]));
    assert forall|a: int, b: int| 0 <= a < after.len() && 0 <= b < after.len() && a != b implies after[a].id != after[b].id by {
        assert(items[a].id != items[b].id);
    }
    lemma_index_of_id(after, id, i);
}

/// The unread counter never exceeds the number of stored messages.
pub proof fn lemma_unread_bounded(items: Seq<MessageModel>, now: i64)
    ensures
        unread_at(items, now) <= items.len(),
{
    lemma_unread_le(items, now);
}

/// The count of a kind is the length of the list filtered by that kind: the
/// messages of the kind that have not expired. An expired message counts for
/// no kind.
pub proof fn lemma_kind_count_is_kind_list(items: Seq<MessageModel>, k: NoticeKind, now: i64)
    ensures
        of_kind_at(items, k, now) == shown_at(items, ListFilter::Kind(k), now).len(),
    decreases items.len(),
{
    if items.len() > 0 {
        lemma_kind_count_is_kind_list(items.drop_last(), k, now);
    }
}

/// The unread count is the length of the unread list: unread messages that
/// have not expired.
pub proof fn lemma_unread_count_is_unread_list(items: Seq<MessageModel>, now: i64)
    ensures
        unread_at(items, now) == shown_at(items, ListFilter::Unread, now).len(),
    decreases items.len(),
{
    if items.len() > 0 {
        lemma_unread_count_is_unread_list(items.drop_last(), now);
    }
}

/// A store recounted at `now` reports for each kind how many messages the
/// list filtered by that kind shows at `now` (`None` when it shows none), and
/// as unread count how many the unread list shows.
pub proof fn lemma_store_counts_match_lists(s: NoticeStore, k: NoticeKind, now: i64)
    requires
        s.wf(),
        s.metrics_at(now),
    ensures
        ({
            let n = shown_at(s.items_view(), ListFilter::Kind(k), now).len();
            &&& n == 0 ==> s.kind_count_spec(k) is None
            &&& n > 0 ==> s.kind_count_spec(k) == Some(n as usize)
        }),
        s.unread_count == shown_at(s.items_view(), ListFilter::Unread, now).len(),
{
    lemma_kind_count_is_kind_list(s.items_view(), k, now);
    lemma_unread_count_is_unread_list(s.items_view(), now);
    assert(s.kind_counts@[kind_slot(k)] == of_kind_at(views(s.items@), k, now));
}

} // verus!

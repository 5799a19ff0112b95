//! The state of the notification app's main view: the notifications (newest
//! first), the connection state and the list filter, and how SSE events change
//! them. Rendering, theming and the toast animation happen outside the library.

use vstd::prelude::*;
use crate::models::notification::{
    error_kind, event_model, parse_spec, EventError, EventModel, Json, Notification, NotificationModel, SseServerEvent,
};
use crate::sse::client::{ConnectionState, SseClientEvent};
use crate::fmt::{digits, push_digits};
use crate::notice_app::ui::{relative_spec, relative_text};
use crate::text::opt_text;
use vstd::string::StringExecFns;

verus! {

/// The list filter.
#[derive(Debug, Clone, Copy, PartialEq, Eq, Structural)]
pub enum Filter {
    /// Every notification.
    All,
    /// Unread only.
    Unread,
    /// Read only.
    Read,
}

impl Default for Filter {
    fn default() -> (f: Self)
        ensures
            f == Filter::All,
    {
        Filter::All
    }
}

/// What an SSE event leaves for the caller to do.
#[derive(Debug)]
pub enum SseOutcome {
    /// Nothing more.
    Done,
    /// A notification arrived: its JSON is to be read into a [`Notification`]
    /// and added with [`NotificationApp::add_notification`].
    Decode(Json),
    /// The frame could not be read (to be logged).
    Failed(EventError),
}

/// The main view's state.
pub struct NotificationApp {
    /// Notifications, newest first.
    pub notifications: Vec<Notification>,
    /// The SSE connection state.
    pub connection_state: ConnectionState,
    /// The list filter.
    pub filter: Filter,
}

pub open spec fn notes(v: Seq<Notification>) -> Seq<NotificationModel> {
    v.map_values(|n: Notification| n@)
}

pub open spec fn unread_in(v: Seq<NotificationModel>) -> nat
    decreases v.len(),
{
    if v.len() == 0 {
        0
    } else {
        unread_in(v.drop_last()) + if v.last().read { 0nat } else { 1nat }
    }
}

pub open spec fn admits(f: Filter, n: NotificationModel) -> bool {
    match f {
        Filter::All => true,
        Filter::Unread => !n.read,
        Filter::Read => n.read,
    }
}

/// The notifications the filter shows, in list order.
pub open spec fn visible_spec(v: Seq<NotificationModel>, f: Filter) -> Seq<NotificationModel>
    decreases v.len(),
{
    if v.len() == 0 {
        Seq::empty()
    } else if admits(f, v.last()) {
        visible_spec(v.drop_last(), f).push(v.last())
    } else {
        visible_spec(v.drop_last(), f)
    }
}

/// `i` is the first notification of id `id`.
pub open spec fn first_id_at(v: Seq<NotificationModel>, id: Seq<char>, i: int) -> bool {
    &&& 0 <= i < v.len()
    &&& v[i].id == id
    &&& forall|j: int| 0 <= j < i ==> v[j].id != id
}

/// The list after marking the first notification of id `id` read.
pub open spec fn mark_read_spec(v: Seq<NotificationModel>, id: Seq<char>) -> Seq<NotificationModel> {
    if exists|i: int| first_id_at(v, id, i) {
        let i = choose|i: int| first_id_at(v, id, i);
        v.update(i, NotificationModel { read: true, ..v[i] })
    } else {
        v
    }
}

/// The list after adding `n`: it replaces the first notification of its id,
/// or, when the id is new, goes first.
pub open spec fn add_spec(v: Seq<NotificationModel>, n: NotificationModel) -> Seq<NotificationModel> {
    if exists|i: int| first_id_at(v, n.id, i) {
        v.update(choose|i: int| first_id_at(v, n.id, i), n)
    } else {
        seq![n] + v
    }
}

/// `v` without the notifications of id `id`.
pub open spec fn remove_spec(v: Seq<NotificationModel>, id: Seq<char>) -> Seq<NotificationModel>
    decreases v.len(),
{
    if v.len() == 0 {
        v
    } else if v.last().id == id {
        remove_spec(v.drop_last(), id)
    } else {
        remove_spec(v.drop_last(), id).push(v.last())
    }
}

proof fn lemma_first_id_unique(v: Seq<NotificationModel>, id: Seq<char>, i: int, k: int)
    requires
        first_id_at(v, id, i),
        first_id_at(v, id, k),
    ensures
        i == k,
{
    if i < k {
        assert(v[i].id != id);
    } else if k < i {
        assert(v[k].id != id);
    }
}

impl NotificationApp {
    /// No notifications, disconnected, showing all.
    pub fn new() -> (a: Self)
        ensures
            a.notifications@.len() == 0,
            a.connection_state == ConnectionState::Disconnected,
            a.filter == Filter::All,
    {
        NotificationApp { notifications: Vec::new(), connection_state: ConnectionState::Disconnected, filter: Filter::All }
    }

    /// The first notification of id `id`, or the length.
    fn position(&self, id: &str) -> (i: usize)
        ensures
            i <= self.notifications@.len(),
            i < self.notifications@.len() ==> first_id_at(notes(self.notifications@), id@, i as int),
            i == self.notifications@.len() ==> forall|k: int| !first_id_at(notes(self.notifications@), id@, k),
    {
        let key = id.to_owned();
        let n = self.notifications.len();
        let mut i: usize = 0;
        while i < n && !(self.notifications[i].id == key)
            invariant
                n == self.notifications@.len(),
                i <= n,
                key@ == id@,
                forall|j: int| 0 <= j < i ==> self.notifications@[j].id@ != id@,
            decreases n - i,
        {
            i = i + 1;
        }
        i
    }

    /// Unread notifications.
    pub fn unread_count(&self) -> (n: usize)
        ensures
            n == unread_in(notes(self.notifications@)),
    {
        let ghost v = notes(self.notifications@);
        let len = self.notifications.len();
        let mut c: usize = 0;
        let mut i: usize = 0;
        while i < len
            invariant
                len == self.notifications@.len(),
                v == notes(self.notifications@),
                i <= len,
                c == unread_in(v.take(i as int)),
                c <= i,
            decreases len - i,
        {
            assert(v.take(i + 1).drop_last() =~= v.take(i as int));
            if !self.notifications[i].read {
                c = c + 1;
            }
            i = i + 1;
        }
        assert(v.take(len as int) =~= v);
        c
    }

    /// The notifications the current filter shows, in list order.
    pub fn visible_notifications(&self) -> (r: Vec<&Notification>)
        ensures
            r@.map_values(|n: &Notification| (*n)@) == visible_spec(notes(self.notifications@), self.filter),
    {
        let ghost v = notes(self.notifications@);
        let len = self.notifications.len();
        let mut out: Vec<&Notification> = Vec::new();
        let mut i: usize = 0;
        while i < len
            invariant
                len == self.notifications@.len(),
                v == notes(self.notifications@),
                i <= len,
                out@.map_values(|n: &Notification| (*n)@) == visible_spec(v.take(i as int), self.filter),
            decreases len - i,
        {
            assert(v.take(i + 1).drop_last() =~= v.take(i as int));
            let note = &self.notifications[i];
            let shown = match self.filter {
                Filter::All => true,
                Filter::Unread => !note.read,
                Filter::Read => note.read,
            };
            if shown {
                out.push(note);
                assert(out@.map_values(|n: &Notification| (*n)@) =~= visible_spec(v.take(i as int), self.filter).push(v[i as int]));
            }
            i = i + 1;
        }
        assert(v.take(len as int) =~= v);
        out
    }

    /// Adds a notification: it replaces the first one of its id, or goes first.
    pub fn add_notification(&mut self, note: Notification)
        ensures
            notes(final(self).notifications@) == add_spec(notes(old(self).notifications@), note@),
            final(self).connection_state == old(self).connection_state,
            final(self).filter == old(self).filter,
    {
        let ghost v = notes(self.notifications@);
        let ghost nv = note@;
        let i = self.position(note.id.as_str());
        if i < self.notifications.len() {
            proof {
                let c = choose|c: int| first_id_at(v, nv.id, c);
                lemma_first_id_unique(v, nv.id, c, i as int);
            }
            self.notifications[i] = note;
            assert(notes(self.notifications@) =~= v.update(i as int, nv));
        } else {
            self.notifications.insert(0, note);
            assert(notes(self.notifications@) =~= seq![nv] + v);
        }
    }

    /// Marks the first notification of id `id` read.
    pub fn mark_read(&mut self, id: &str)
        ensures
            notes(final(self).notifications@) == mark_read_spec(notes(old(self).notifications@), id@),
            final(self).connection_state == old(self).connection_state,
            final(self).filter == old(self).filter,
    {
        let ghost v = notes(self.notifications@);
        let i = self.position(id);
        if i < self.notifications.len() {
            proof {
                let c = choose|c: int| first_id_at(v, id@, c);
                lemma_first_id_unique(v, id@, c, i as int);
            }
            self.notifications[i].read = true;
            assert(notes(self.notifications@) =~= v.update(i as int, NotificationModel { read: true, ..v[i as int] }));
        }
    }

    /// Marks every notification read.
    pub fn mark_all_read(&mut self)
        ensures
            notes(final(self).notifications@) == notes(old(self).notifications@).map_values(
                |n: NotificationModel| NotificationModel { read: true, ..n },
            ),
            final(self).connection_state == old(self).connection_state,
            final(self).filter == old(self).filter,
    {
        let ghost v = notes(self.notifications@);
        let n = self.notifications.len();
        let mut i: usize = 0;
        while i < n
            invariant
                n == self.notifications@.len(),
                n == v.len(),
                i <= n,
                self.connection_state == old(self).connection_state,
                self.filter == old(self).filter,
                forall|j: int| 0 <= j < i ==> self.notifications@[j]@ == (NotificationModel { read: true, ..v[j] }),
                forall|j: int| i <= j < n ==> self.notifications@[j]@ == v[j],
            decreases n - i,
        {
            self.notifications[i].read = true;
            i = i + 1;
        }
        assert(notes(self.notifications@) =~= v.map_values(|n: NotificationModel| NotificationModel { read: true, ..n }));
    }

    /// Removes the notifications of id `id`.
    pub fn remove(&mut self, id: &str)
        ensures
            notes(final(self).notifications@) == remove_spec(notes(old(self).notifications@), id@),
            final(self).connection_state == old(self).connection_state,
            final(self).filter == old(self).filter,
    {
        let ghost v = notes(self.notifications@);
        let key = id.to_owned();
        let n = self.notifications.len();
        let mut i: usize = 0;
        let mut k: usize = 0;
        while k < n
            invariant
                n == v.len(),
                key@ == id@,
                k <= n,
                i <= k,
                self.connection_state == old(self).connection_state,
                self.filter == old(self).filter,
                i == remove_spec(v.take(k as int), id@).len(),
                notes(self.notifications@) == remove_spec(v.take(k as int), id@) + v.subrange(k as int, n as int),
            decreases n - k,
        {
            let ghost cur = notes(self.notifications@);
            assert(v.take(k + 1).drop_last() =~= v.take(k as int));
            assert(cur.len() == self.notifications@.len());
            assert(cur.len() == i + (n - k));
            assert(cur[i as int] == v[k as int]);
            if self.notifications[i].id == key {
                let _gone = self.notifications.remove(i);
                assert(v[k as int].id == id@);
                assert(remove_spec(v.take(k + 1), id@) == remove_spec(v.take(k as int), id@));
                assert(notes(self.notifications@) =~= cur.remove(i as int));
                assert(notes(self.notifications@) =~= remove_spec(v.take(k + 1), id@) + v.subrange(k + 1, n as int));
            } else {
                assert(remove_spec(v.take(k + 1), id@) =~= remove_spec(v.take(k as int), id@).push(v[k as int]));
                assert(notes(self.notifications@) =~= remove_spec(v.take(k + 1), id@) + v.subrange(k + 1, n as int));
                i = i + 1;
            }
            k = k + 1;
        }
        assert(v.take(n as int) =~= v);
        assert(notes(self.notifications@) =~= remove_spec(v, id@));
    }

    /// Removes every notification.
    pub fn clear_all(&mut self)
        ensures
            final(self).notifications@.len() == 0,
            final(self).connection_state == old(self).connection_state,
            final(self).filter == old(self).filter,
    {
        self.notifications.clear();
    }

    /// Applies an event the server asked for. A new notification is handed
    /// back as its JSON, to be read and added by the caller.
    pub fn apply_server_event(&mut self, event: SseServerEvent) -> (pending: Option<Json>)
        ensures
            final(self).connection_state == old(self).connection_state,
            final(self).filter == old(self).filter,
            match event {
                SseServerEvent::Notification(j) => pending == Some(j) && final(self).notifications == old(self).notifications,
                SseServerEvent::Read { id } => pending is None
                    && notes(final(self).notifications@) == mark_read_spec(notes(old(self).notifications@), id@),
                SseServerEvent::ReadAll => pending is None
                    && notes(final(self).notifications@) == notes(old(self).notifications@).map_values(
                        |n: NotificationModel| NotificationModel { read: true, ..n },
                    ),
                SseServerEvent::Clear => pending is None && final(self).notifications@.len() == 0,
                _ => pending is None && final(self).notifications == old(self).notifications,
            },
    {
        match event {
            SseServerEvent::Notification(j) => Some(j),
            SseServerEvent::Read { id } => {
                self.mark_read(id.as_str());
                None
            },
            SseServerEvent::ReadAll => {
                self.mark_all_read();
                None
            },
            SseServerEvent::Clear => {
                self.clear_all();
                None
            },
            SseServerEvent::Connected { .. } | SseServerEvent::Ping => None,
        }
    }

    /// Handles an event of the SSE client: a state change is recorded; a
    /// message is read as a server event (see [`parse_spec`]) and applied; a
    /// new notification is handed back as its JSON, an unreadable frame as its
    /// error.
    pub fn on_sse_event(&mut self, event: SseClientEvent) -> (out: SseOutcome)
        ensures
            final(self).filter == old(self).filter,
            match event {
                SseClientEvent::State(s) => final(self).connection_state == s
                    && final(self).notifications == old(self).notifications
                    && out is Done,
                SseClientEvent::Message(m) => final(self).connection_state == old(self).connection_state
                    && match parse_spec(opt_text(m.event), m.data@) {
                        Ok(Some(e)) => notes(final(self).notifications@) == after_event(notes(old(self).notifications@), e)
                            && match e {
                                EventModel::Notification(j) => out == SseOutcome::Decode(j),
                                _ => out is Done,
                            },
                        Ok(None) => notes(final(self).notifications@) == notes(old(self).notifications@) && out is Done,
                        Err(k) => notes(final(self).notifications@) == notes(old(self).notifications@)
                            && (out matches SseOutcome::Failed(err) && error_kind(err) == k),
                    },
            },
    {
        match event {
            SseClientEvent::State(state) => {
                self.connection_state = state;
                SseOutcome::Done
            },
            SseClientEvent::Message(message) => {
                let parsed = match &message.event {
                    Some(e) => SseServerEvent::parse(Some(e.as_str()), message.data.as_str()),
                    None => SseServerEvent::parse(None, message.data.as_str()),
                };
                match parsed {
                    Ok(Some(ev)) => {
                        let ghost em = event_model(ev);
                        let ghost v = notes(self.notifications@);
                        let r = match self.apply_server_event(ev) {
                            Some(j) => SseOutcome::Decode(j),
                            None => SseOutcome::Done,
                        };
                        assert(notes(self.notifications@) =~= after_event(v, em));
                        r
                    },
                    Ok(None) => SseOutcome::Done,
                    Err(e) => SseOutcome::Failed(e),
                }
            },
        }
    }
}

/// The unread note of the toolbar: "all read", or how many are unread.
pub open spec fn unread_note_spec(n: usize) -> Seq<char> {
    if n == 0 {
        seq!['全', '部', '已', '读']
    } else {
        digits(n as nat, 10) + seq![' ', '条', '未', '读']
    }
}

/// The unread note of the toolbar.
pub fn unread_note(n: usize) -> (s: String)
    ensures
        s@ == unread_note_spec(n),
{
    proof {
        reveal_strlit("全部已读");
        reveal_strlit(" 条未读");
    }
    if n == 0 {
        let s = String::from_str("全部已读");
        assert(s@ =~= unread_note_spec(n));
        s
    } else {
        let mut s = String::new();
        push_digits(&mut s, n as u64, 10);
        s.append(" 条未读");
        assert(s@ =~= unread_note_spec(n));
        s
    }
}

/// The `MM-dd HH:mm` text (UTC) that `chrono` writes for an instant given in
/// milliseconds, when it can represent it.
pub uninterp spec fn utc_month_day_time(ms: i64) -> Option<Seq<char>>;

/// Calls `chrono::DateTime::from_timestamp_millis` and formats the instant
/// with `%m-%d %H:%M`. Claimed: the result is the name `utc_month_day_time`.
#[verifier::external_body]
fn utc_short(ms: i64) -> (r: Option<String>)
    ensures
        match r {
            Some(t) => utc_month_day_time(ms) == Some(t@),
            None => utc_month_day_time(ms) is None,
        },
{
    chrono::DateTime::from_timestamp_millis(ms).map(|dt| dt.format("%m-%d %H:%M").to_string())
}

/// Whole seconds between two instants in milliseconds, rounded towards zero.
pub open spec fn elapsed_secs(from_ms: i64, to_ms: i64) -> int {
    let d = to_ms - from_ms;
    if d >= 0 { d / 1000 } else { -((-d) / 1000) }
}

/// When a notification was created, as the card shows it at `now_ms`: up to
/// a week in words (see [`relative_spec`]), older ones as `MM-dd HH:mm` in UTC.
pub open spec fn created_text_spec(created_at_ms: i64, now_ms: i64) -> Seq<char> {
    match relative_spec(elapsed_secs(created_at_ms, now_ms)) {
        Some(t) => t,
        None => match utc_month_day_time(created_at_ms) {
            Some(t) => t,
            None => Seq::empty(),
        },
    }
}

/// When a notification was created, as the card shows it at `now_ms`.
pub fn created_text(created_at_ms: i64, now_ms: i64) -> (s: String)
    ensures
        s@ == created_text_spec(created_at_ms, now_ms),
{
    let d: i128 = now_ms as i128 - created_at_ms as i128;
    let secs: i128 = if d >= 0 { d / 1000 } else { -((-d) / 1000) };
    assert(secs == elapsed_secs(created_at_ms, now_ms));
    match relative_text(secs as i64) {
        Some(t) => t,
        None => match utc_short(created_at_ms) {
            Some(t) => t,
            None => String::new(),
        },
    }
}

/// The note shown when the filter leaves the list empty.
pub open spec fn empty_note_spec(f: Filter) -> Seq<char> {
    match f {
        Filter::All => seq!['暂', '无', '通', '知'],
        Filter::Unread => seq!['没', '有', '未', '读', '通', '知'],
        Filter::Read => seq!['没', '有', '已', '读', '通', '知'],
    }
}

/// The note shown when the filter leaves the list empty.
pub fn empty_note(f: Filter) -> (s: &'static str)
    ensures
        s@ == empty_note_spec(f),
{
    proof {
        reveal_strlit("暂无通知");
        reveal_strlit("没有未读通知");
        reveal_strlit("没有已读通知");
    }
    match f {
        Filter::All => "暂无通知",
        Filter::Unread => "没有未读通知",
        Filter::Read => "没有已读通知",
    }
}

/// The list after a server event (a new notification is added by the caller
/// once it is read).
pub open spec fn after_event(v: Seq<NotificationModel>, e: EventModel) -> Seq<NotificationModel> {
    match e {
        EventModel::Read(id) => mark_read_spec(v, id),
        EventModel::ReadAll => v.map_values(|n: NotificationModel| NotificationModel { read: true, ..n }),
        EventModel::Clear => Seq::empty(),
        _ => v,
    }
}

/// Adding a notification leaves it as the first one of its id; the list grows
/// by one exactly when the id was new.
pub proof fn lemma_add_then_present(v: Seq<NotificationModel>, n: NotificationModel)
    ensures
        exists|i: int| first_id_at(add_spec(v, n), n.id, i) && add_spec(v, n)[i] == n,
        add_spec(v, n).len() == if exists|i: int| first_id_at(v, n.id, i) { v.len() } else { v.len() + 1 },
{
    if exists|i: int| first_id_at(v, n.id, i) {
        let i = choose|i: int| first_id_at(v, n.id, i);
        assert(first_id_at(add_spec(v, n), n.id, i));
    } else {
        assert(first_id_at(add_spec(v, n), n.id, 0));
    }
}

/// After marking every notification read, none is unread.
pub proof fn lemma_mark_all_read_clears(v: Seq<NotificationModel>)
    ensures
        unread_in(v.map_values(|n: NotificationModel| NotificationModel { read: true, ..n })) == 0,
    decreases v.len(),
{
    let f = |n: NotificationModel| NotificationModel { read: true, ..n };
    if v.len() > 0 {
        lemma_mark_all_read_clears(v.drop_last());
        assert(v.map_values(f).drop_last() =~= v.drop_last().map_values(f));
    }
}

/// The unread filter shows exactly as many notifications as are unread.
pub proof fn lemma_unread_filter_counts(v: Seq<NotificationModel>)
    ensures
        visible_spec(v, Filter::Unread).len() == unread_in(v),
    decreases v.len(),
{
    if v.len() > 0 {
        lemma_unread_filter_counts(v.drop_last());
    }
}

/// After removing an id, no notification of that id is left, and none of
/// another id was lost.
pub proof fn lemma_remove_gone(v: Seq<NotificationModel>, id: Seq<char>)
    ensures
        forall|i: int| 0 <= i < remove_spec(v, id).len() ==> remove_spec(v, id)[i].id != id,
        forall|x: NotificationModel| x.id != id ==> (v.contains(x) <==> remove_spec(v, id).contains(x)),
    decreases v.len(),
{
    if v.len() > 0 {
        let w = v.drop_last();
        lemma_remove_gone(w, id);
        assert forall|x: NotificationModel| x.id != id implies (v.contains(x) <==> remove_spec(v, id).contains(x)) by {
            if v.contains(x) {
                let k = choose|k: int| 0 <= k < v.len() && v[k] == x;
                if k < w.len() {
                    assert(w[k] == x);
                    assert(w.contains(x));
                    assert(remove_spec(w, id).contains(x));
                    let m = choose|m: int| 0 <= m < remove_spec(w, id).len() && remove_spec(w, id)[m] == x;
                    if v.last().id != id {
                        assert(remove_spec(v, id) == remove_spec(w, id).push(v.last()));
                        assert(remove_spec(v, id)[m] == x);
                    }
                } else {
                    assert(remove_spec(v, id) == remove_spec(w, id).push(v.last()));
                    assert(remove_spec(v, id)[remove_spec(w, id).len() as int] == x);
                }
            }
            if remove_spec(v, id).contains(x) {
                let k = choose|k: int| 0 <= k < remove_spec(v, id).len() && remove_spec(v, id)[k] == x;
                if v.last().id == id || k < remove_spec(w, id).len() {
                    assert(remove_spec(w, id)[k] == x);
                    assert(remove_spec(w, id).contains(x));
                    assert(w.contains(x));
                    let m = choose|m: int| 0 <= m < w.len() && w[m] == x;
                    assert(v[m] == x);
                } else {
                    assert(v[v.len() - 1] == x);
                }
            }
        }
    }
}

} // verus!

//! The notification data model of the notice box: one message with its
//! metadata, content and interaction records.
//!
//! Enumerations keep an `Unknown` fallback so that values a newer server
//! sends do not make a message unreadable.

use vstd::prelude::*;
use crate::text::opt_text;

verus! {

/// One notification message.
#[derive(Debug, PartialEq)]
pub struct NoticeMessage {
    /// Data ID.
    pub id: String,
    /// Basic metadata.
    pub meta: NoticeMeta,
    /// Content.
    pub content: NoticeContent,
    /// Interaction records.
    pub interaction: NoticeInteraction,
    /// Extension fields: each key with its value as JSON text.
    pub extra: Vec<(String, String)>,
}

/// Basic metadata.
#[derive(Debug, PartialEq)]
pub struct NoticeMeta {
    /// Kind (JSON key `type`).
    pub kind: NoticeKind,
    /// Status.
    pub status: NoticeStatus,
    /// Priority, `Low` when absent.
    pub priority: NoticePriority,
    /// Channel ID.
    pub channel: String,
    /// Creation time (Unix seconds).
    pub timestamp: i64,
    /// Expiry time (Unix seconds); `None` never expires.
    pub expirein: Option<i64>,
}

/// Notification kind.
#[derive(Debug, Clone, Copy, PartialEq, Eq, Hash, Structural)]
pub enum NoticeKind {
    System,
    Interaction,
    Transaction,
    Security,
    Activity,
    Other,
    /// A kind this model does not know.
    Unknown,
}

impl Default for NoticeKind {
    fn default() -> (k: Self)
        ensures
            k == NoticeKind::Other,
    {
        NoticeKind::Other
    }
}

impl NoticeKind {
    /// Display name (Chinese).
    pub fn display_name(&self) -> (name: &'static str)
        ensures
            name@ == kind_name(*self),
    {
        proof {
            reveal_strlit("系统");
            reveal_strlit("互动");
            reveal_strlit("交易");
            reveal_strlit("安全");
            reveal_strlit("活动");
            reveal_strlit("其他");
        }
        match self {
            NoticeKind::System => "系统",
            NoticeKind::Interaction => "互动",
            NoticeKind::Transaction => "交易",
            NoticeKind::Security => "安全",
            NoticeKind::Activity => "活动",
            NoticeKind::Other | NoticeKind::Unknown => "其他",
        }
    }
}

/// The display name of a kind; unknown kinds show as "other".
pub open spec fn kind_name(k: NoticeKind) -> Seq<char> {
    match k {
        NoticeKind::System => seq!['系', '统'],
        NoticeKind::Interaction => seq!['互', '动'],
        NoticeKind::Transaction => seq!['交', '易'],
        NoticeKind::Security => seq!['安', '全'],
        NoticeKind::Activity => seq!['活', '动'],
        NoticeKind::Other | NoticeKind::Unknown => seq!['其', '他'],
    }
}

/// Notification status.
#[derive(Debug, Clone, Copy, PartialEq, Eq, Structural)]
pub enum NoticeStatus {
    Unread,
    Read,
    Deleted,
    /// A status this model does not know: handled as read, so that it does
    /// not disturb the unread count.
    Unknown,
}

impl Default for NoticeStatus {
    fn default() -> (s: Self)
        ensures
            s == NoticeStatus::Unread,
    {
        NoticeStatus::Unread
    }
}

/// Notification priority.
#[derive(Debug, Clone, Copy, PartialEq, Eq, PartialOrd, Ord, Structural)]
pub enum NoticePriority {
    Low,
    Normal,
    High,
    Urgent,
    /// A priority this model does not know (shown as low).
    Unknown,
}

impl Default for NoticePriority {
    fn default() -> (p: Self)
        ensures
            p == NoticePriority::Low,
    {
        NoticePriority::Low
    }
}

/// The display name of a priority; unknown priorities show as low.
pub open spec fn priority_name(p: NoticePriority) -> Seq<char> {
    match p {
        NoticePriority::Low | NoticePriority::Unknown => seq!['低'],
        NoticePriority::Normal => seq!['普', '通'],
        NoticePriority::High => seq!['高'],
        NoticePriority::Urgent => seq!['紧', '急'],
    }
}

impl NoticePriority {
    /// Display name (Chinese).
    pub fn display_name(&self) -> (name: &'static str)
        ensures
            name@ == priority_name(*self),
    {
        proof {
            reveal_strlit("低");
            reveal_strlit("普通");
            reveal_strlit("高");
            reveal_strlit("紧急");
        }
        match self {
            NoticePriority::Low | NoticePriority::Unknown => "低",
            NoticePriority::Normal => "普通",
            NoticePriority::High => "高",
            NoticePriority::Urgent => "紧急",
        }
    }

    /// Whether the priority calls for a prominent alert (high or urgent).
    pub fn is_prominent(&self) -> (b: bool)
        ensures
            b <==> (*self == NoticePriority::High || *self == NoticePriority::Urgent),
    {
        match self {
            NoticePriority::High | NoticePriority::Urgent => true,
            _ => false,
        }
    }
}

/// Content.
#[derive(Debug, PartialEq)]
pub struct NoticeContent {
    /// Title.
    pub title: String,
    /// Summary for the list; when absent the body stands in.
    pub summary: Option<String>,
    /// Body (HTML or Markdown).
    pub body: Option<String>,
    /// Author.
    pub author: Option<NoticeAuthor>,
    /// Cover (attachment ID).
    pub cover: Option<String>,
    /// Tags.
    pub tags: Vec<String>,
    /// Attachments (attachment IDs).
    pub entities: Vec<String>,
}

/// Author.
#[derive(Debug, PartialEq)]
pub struct NoticeAuthor {
    pub name: Option<String>,
    pub avatar: Option<String>,
}

/// Interaction records.
#[derive(Debug, PartialEq)]
pub struct NoticeInteraction {
    /// Views of the message.
    pub views: Vec<NoticeView>,
}

/// One view record.
#[derive(Debug, PartialEq)]
pub struct NoticeView {
    /// User ID.
    pub id: Option<String>,
    /// Time (Unix seconds).
    pub timestamp: i64,
    /// Log text.
    pub body: Option<String>,
}


pub open spec fn strings_view(v: Seq<String>) -> Seq<Seq<char>> {
    v.map_values(|s: String| s@)
}

/// An author as a value of the specification.
pub struct AuthorModel {
    pub name: Option<Seq<char>>,
    pub avatar: Option<Seq<char>>,
}

impl View for NoticeAuthor {
    type V = AuthorModel;

    open spec fn view(&self) -> AuthorModel {
        AuthorModel { name: opt_text(self.name), avatar: opt_text(self.avatar) }
    }
}

/// A view record as a value of the specification.
pub struct ViewRecordModel {
    pub id: Option<Seq<char>>,
    pub timestamp: i64,
    pub body: Option<Seq<char>>,
}

impl View for NoticeView {
    type V = ViewRecordModel;

    open spec fn view(&self) -> ViewRecordModel {
        ViewRecordModel { id: opt_text(self.id), timestamp: self.timestamp, body: opt_text(self.body) }
    }
}

/// Content as a value of the specification.
pub struct ContentModel {
    pub title: Seq<char>,
    pub summary: Option<Seq<char>>,
    pub body: Option<Seq<char>>,
    pub author: Option<AuthorModel>,
    pub cover: Option<Seq<char>>,
    pub tags: Seq<Seq<char>>,
    pub entities: Seq<Seq<char>>,
}

impl View for NoticeContent {
    type V = ContentModel;

    open spec fn view(&self) -> ContentModel {
        ContentModel {
            title: self.title@,
            summary: opt_text(self.summary),
            body: opt_text(self.body),
            author: match self.author {
                Some(a) => Some(a@),
                None => None,
            },
            cover: opt_text(self.cover),
            tags: strings_view(self.tags@),
            entities: strings_view(self.entities@),
        }
    }
}

impl View for NoticeInteraction {
    type V = Seq<ViewRecordModel>;

    open spec fn view(&self) -> Seq<ViewRecordModel> {
        self.views@.map_values(|v: NoticeView| v@)
    }
}

/// Metadata as a value of the specification.
pub struct MetaModel {
    pub kind: NoticeKind,
    pub status: NoticeStatus,
    pub priority: NoticePriority,
    pub channel: Seq<char>,
    pub timestamp: i64,
    pub expirein: Option<i64>,
}

impl View for NoticeMeta {
    type V = MetaModel;

    open spec fn view(&self) -> MetaModel {
        MetaModel {
            kind: self.kind,
            status: self.status,
            priority: self.priority,
            channel: self.channel@,
            timestamp: self.timestamp,
            expirein: self.expirein,
        }
    }
}

/// A message as a value of the specification.
pub struct MessageModel {
    pub id: Seq<char>,
    pub meta: MetaModel,
    pub content: ContentModel,
    pub views: Seq<ViewRecordModel>,
    pub extra: Seq<(Seq<char>, Seq<char>)>,
}

impl View for NoticeMessage {
    type V = MessageModel;

    open spec fn view(&self) -> MessageModel {
        MessageModel {
            id: self.id@,
            meta: self.meta@,
            content: self.content@,
            views: self.interaction@,
            extra: self.extra@.map_values(|e: (String, String)| (e.0@, e.1@)),
        }
    }
}

pub fn clone_opt_string(o: &Option<String>) -> (r: Option<String>)
    ensures
        r == *o,
{
    match o {
        Some(s) => Some(s.clone()),
        None => None,
    }
}

pub fn clone_strings(v: &Vec<String>) -> (r: Vec<String>)
    ensures
        r@ == v@,
{
    let mut r: Vec<String> = Vec::new();
    let mut i: usize = 0;
    while i < v.len()
        invariant
            i <= v@.len(),
            r@ == v@.subrange(0, i as int),
        decreases v@.len() - i,
    {
        r.push(v[i].clone());
        i = i + 1;
        assert(r@ =~= v@.subrange(0, i as int));
    }
    assert(v@.subrange(0, v@.len() as int) =~= v@);
    r
}

impl Clone for NoticeAuthor {
    fn clone(&self) -> (r: Self)
        ensures
            r == *self,
    {
        NoticeAuthor { name: clone_opt_string(&self.name), avatar: clone_opt_string(&self.avatar) }
    }
}

impl Clone for NoticeView {
    fn clone(&self) -> (r: Self)
        ensures
            r == *self,
    {
        NoticeView { id: clone_opt_string(&self.id), timestamp: self.timestamp, body: clone_opt_string(&self.body) }
    }
}

impl Clone for NoticeContent {
    fn clone(&self) -> (r: Self)
        ensures
            r@ == self@,
    {
        let author = match &self.author {
            Some(a) => Some(a.clone()),
            None => None,
        };
        let r = NoticeContent {
            title: self.title.clone(),
            summary: clone_opt_string(&self.summary),
            body: clone_opt_string(&self.body),
            author,
            cover: clone_opt_string(&self.cover),
            tags: clone_strings(&self.tags),
            entities: clone_strings(&self.entities),
        };
        assert(r@ =~= self@);
        r
    }
}

impl Clone for NoticeInteraction {
    fn clone(&self) -> (r: Self)
        ensures
            r@ == self@,
    {
        let mut views: Vec<NoticeView> = Vec::new();
        let mut i: usize = 0;
        while i < self.views.len()
            invariant
                i <= self.views@.len(),
                views@ == self.views@.subrange(0, i as int),
            decreases self.views@.len() - i,
        {
            views.push(self.views[i].clone());
            i = i + 1;
            assert(views@ =~= self.views@.subrange(0, i as int));
        }
        assert(self.views@.subrange(0, self.views@.len() as int) =~= self.views@);
        let r = NoticeInteraction { views };
        assert(r@ =~= self@);
        r
    }
}

impl Clone for NoticeMeta {
    fn clone(&self) -> (r: Self)
        ensures
            r == *self,
    {
        NoticeMeta {
            kind: self.kind,
            status: self.status,
            priority: self.priority,
            channel: self.channel.clone(),
            timestamp: self.timestamp,
            expirein: self.expirein,
        }
    }
}

impl Clone for NoticeMessage {
    fn clone(&self) -> (r: Self)
        ensures
            r@ == self@,
    {
        let mut extra: Vec<(String, String)> = Vec::new();
        let mut i: usize = 0;
        while i < self.extra.len()
            invariant
                i <= self.extra@.len(),
                extra@ == self.extra@.subrange(0, i as int),
            decreases self.extra@.len() - i,
        {
            let (k, v) = &self.extra[i];
            extra.push((k.clone(), v.clone()));
            i = i + 1;
            assert(extra@ =~= self.extra@.subrange(0, i as int));
        }
        assert(self.extra@.subrange(0, self.extra@.len() as int) =~= self.extra@);
        let r = NoticeMessage {
            id: self.id.clone(),
            meta: self.meta.clone(),
            content: self.content.clone(),
            interaction: self.interaction.clone(),
            extra,
        };
        assert(r@.extra =~= self@.extra);
        r
    }
}

/// `expirein` is a point in time; a message with none never expires.
pub open spec fn expired_at(m: MessageModel, now_unix: i64) -> bool {
    match m.meta.expirein {
        Some(t) => t <= now_unix,
        None => false,
    }
}

/// The list summary: the summary when there is one, else the body.
pub open spec fn summary_or_body_spec(m: MessageModel) -> Option<Seq<char>> {
    match m.content.summary {
        Some(s) => Some(s),
        None => m.content.body,
    }
}

impl NoticeMessage {
    pub fn is_unread(&self) -> (b: bool)
        ensures
            b <==> self.meta.status == NoticeStatus::Unread,
    {
        self.meta.status == NoticeStatus::Unread
    }

    /// Whether the message counts as read: read, or of an unknown status.
    pub fn is_read(&self) -> (b: bool)
        ensures
            b <==> (self.meta.status == NoticeStatus::Read || self.meta.status == NoticeStatus::Unknown),
    {
        self.meta.status == NoticeStatus::Read || self.meta.status == NoticeStatus::Unknown
    }

    pub fn is_deleted(&self) -> (b: bool)
        ensures
            b <==> self.meta.status == NoticeStatus::Deleted,
    {
        self.meta.status == NoticeStatus::Deleted
    }

    /// Whether the message has expired at `now_unix` (Unix seconds).
    pub fn is_expired_at(&self, now_unix: i64) -> (b: bool)
        ensures
            b == expired_at(self@, now_unix),
    {
        match self.meta.expirein {
            Some(t) => t <= now_unix,
            None => false,
        }
    }

    /// The list summary: `summary` when present, else `body`.
    pub fn summary_or_body(&self) -> (r: Option<&str>)
        ensures
            match r {
                Some(s) => summary_or_body_spec(self@) == Some(s@),
                None => summary_or_body_spec(self@) is None,
            },
    {
        match &self.content.summary {
            Some(s) => Some(s.as_str()),
            None => match &self.content.body {
                Some(b) => Some(b.as_str()),
                None => None,
            },
        }
    }
}

} // verus!

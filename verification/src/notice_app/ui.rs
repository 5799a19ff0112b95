//! The texts the notice box shows: relative times, list summaries, the detail
//! pane and the connection status. Drawing happens outside the library.

use vstd::prelude::*;
use vstd::string::StringExecFns;
use crate::fmt::{decimal_i64, decimal_text, digits, push_digits};
use crate::notice_app::state::ConnectionState;
use crate::notice_app::toast::{first_chars, take_chars};
use crate::notice_model::{NoticeMessage, summary_or_body_spec};
use crate::text::{chars_of, trim_str, trim_ws};

verus! {

/// The relative time of something `secs` seconds old: "just now" under a
/// minute (or in the future), then whole minutes, hours and days up to a
/// week; `None` from a week on (that is shown as a calendar date).
pub open spec fn relative_spec(secs: int) -> Option<Seq<char>> {
    if secs < 60 {
        Some(seq!['刚', '刚'])
    } else if secs < 3600 {
        Some(decimal_text(secs / 60) + seq![' ', '分', '钟', '前'])
    } else if secs < 86400 {
        Some(decimal_text(secs / 3600) + seq![' ', '小', '时', '前'])
    } else if secs < 86400 * 7 {
        Some(decimal_text(secs / 86400) + seq![' ', '天', '前'])
    } else {
        None
    }
}

/// The relative time of something `secs` seconds old, up to a week.
pub fn relative_text(secs: i64) -> (r: Option<String>)
    ensures
        match r {
            Some(s) => relative_spec(secs as int) == Some(s@),
            None => relative_spec(secs as int) is None,
        },
{
    proof {
        reveal_strlit("刚刚");
        reveal_strlit(" 分钟前");
        reveal_strlit(" 小时前");
        reveal_strlit(" 天前");
    }
    if secs < 60 {
        let s = String::from_str("刚刚");
        assert(s@ =~= seq!['刚', '刚']);
        Some(s)
    } else if secs < 3600 {
        let mut s = decimal_i64(secs / 60);
        s.append(" 分钟前");
        assert(s@ =~= decimal_text(secs / 60) + seq![' ', '分', '钟', '前']);
        Some(s)
    } else if secs < 86400 {
        let mut s = decimal_i64(secs / 3600);
        s.append(" 小时前");
        assert(s@ =~= decimal_text(secs / 3600) + seq![' ', '小', '时', '前']);
        Some(s)
    } else if secs < 86400 * 7 {
        let mut s = decimal_i64(secs / 86400);
        s.append(" 天前");
        assert(s@ =~= decimal_text(secs / 86400) + seq![' ', '天', '前']);
        Some(s)
    } else {
        None
    }
}

pub open spec fn no_summary() -> Seq<char> {
    seq!['（', '无', '摘', '要', '）']
}

/// The list summary of a message: its summary (or body) trimmed, "(no
/// summary)" when that is empty or absent; cut to 60 characters with `…`
/// after a cut.
pub open spec fn summary_spec(m: crate::notice_model::MessageModel) -> Seq<char> {
    let t = match summary_or_body_spec(m) {
        Some(s) => if trim_ws(s).len() > 0 { trim_ws(s) } else { no_summary() },
        None => no_summary(),
    };
    if t.len() > 60 { t.subrange(0, 60).push('…') } else { t }
}

/// The list summary of a message.
pub fn summary_text(message: &NoticeMessage) -> (s: String)
    ensures
        s@ == summary_spec(message@),
{
    proof {
        reveal_strlit("（无摘要）");
    }
    let fallback = "（无摘要）";
    let text: &str = match message.summary_or_body() {
        Some(s) => {
            let t = trim_str(s);
            if chars_of(t).len() > 0 { t } else { fallback }
        },
        None => fallback,
    };
    assert(fallback@ =~= no_summary());
    let n = chars_of(text).len();
    let mut out = take_chars(text, 60);
    if n > 60 {
        crate::fmt::push_char(&mut out, '…');
    }
    assert(out@ =~= summary_spec(message@));
    out
}

/// The connection status line of the title bar.
pub open spec fn connection_spec(c: ConnectionState) -> Seq<char> {
    match c {
        ConnectionState::Connecting => seq!['连', '接', '中', '…'],
        ConnectionState::Connected => seq!['已', '连', '接'],
        ConnectionState::Reconnecting { attempt } => seq!['重', '连', '中', '…', '(', '第', ' '] + digits(attempt as nat, 10)
            + seq![' ', '次', ')'],
        ConnectionState::Disconnected => seq!['已', '断', '开', '，', '等', '待', '重', '连'],
    }
}

/// The connection status line of the title bar.
pub fn connection_text(c: &ConnectionState) -> (s: String)
    ensures
        s@ == connection_spec(*c),
{
    proof {
        reveal_strlit("连接中…");
        reveal_strlit("已连接");
        reveal_strlit("重连中…(第 ");
        reveal_strlit(" 次)");
        reveal_strlit("已断开，等待重连");
    }
    match c {
        ConnectionState::Connecting => {
            let s = String::from_str("连接中…");
            assert(s@ =~= connection_spec(*c));
            s
        },
        ConnectionState::Connected => {
            let s = String::from_str("已连接");
            assert(s@ =~= connection_spec(*c));
            s
        },
        ConnectionState::Reconnecting { attempt } => {
            let mut s = String::from_str("重连中…(第 ");
            push_digits(&mut s, *attempt as u64, 10);
            s.append(" 次)");
            assert(s@ =~= connection_spec(*c));
            s
        },
        ConnectionState::Disconnected => {
            let s = String::from_str("已断开，等待重连");
            assert(s@ =~= connection_spec(*c));
            s
        },
    }
}

pub open spec fn no_body() -> Seq<char> {
    seq!['（', '本', '条', '通', '知', '没', '有', '正', '文', '内', '容', '）']
}

/// The text of the detail pane: the body, else the summary, else a note that
/// there is none.
pub open spec fn body_text_spec(m: crate::notice_model::MessageModel) -> Seq<char> {
    match m.content.body {
        Some(b) => b,
        None => match m.content.summary {
            Some(s) => s,
            None => no_body(),
        },
    }
}

/// The text of the detail pane.
pub fn body_text(message: &NoticeMessage) -> (s: &str)
    ensures
        s@ == body_text_spec(message@),
{
    proof {
        reveal_strlit("（本条通知没有正文内容）");
    }
    match &message.content.body {
        Some(b) => b.as_str(),
        None => match &message.content.summary {
            Some(t) => t.as_str(),
            None => {
                let s = "（本条通知没有正文内容）";
                assert(s@ =~= no_body());
                s
            },
        },
    }
}

/// The line about the latest view of a message, `when` being the time of that
/// view as shown: "latest view (when): body", or without the body when it is
/// empty or absent; `None` when the message was never viewed.
pub open spec fn latest_view_spec(m: crate::notice_model::MessageModel, when: Seq<char>) -> Option<Seq<char>> {
    if m.views.len() == 0 {
        None
    } else {
        match m.views.last().body {
            Some(b) => if b.len() > 0 {
                Some(seq!['最', '近', '浏', '览', '（'] + when + seq!['）', '：'] + b)
            } else {
                Some(seq!['最', '近', '浏', '览', '：'] + when)
            },
            None => Some(seq!['最', '近', '浏', '览', '：'] + when),
        }
    }
}

/// The line about the latest view of a message (see [`latest_view_spec`]).
pub fn latest_view(message: &NoticeMessage, when: &str) -> (r: Option<String>)
    ensures
        match r {
            Some(s) => latest_view_spec(message@, when@) == Some(s@),
            None => latest_view_spec(message@, when@) is None,
        },
{
    proof {
        reveal_strlit("最近浏览（");
        reveal_strlit("）：");
        reveal_strlit("最近浏览：");
    }
    let n = message.interaction.views.len();
    if n == 0 {
        return None;
    }
    let view = &message.interaction.views[n - 1];
    assert(message@.views.last() == view@);
    let with_body = match &view.body {
        Some(b) => chars_of(b.as_str()).len() > 0,
        None => false,
    };
    if with_body {
        let mut s = String::from_str("最近浏览（");
        s.append(when);
        s.append("）：");
        match &view.body {
            Some(b) => s.append(b.as_str()),
            None => {},
        }
        assert(Some(s@) == latest_view_spec(message@, when@));
        Some(s)
    } else {
        let mut s = String::from_str("最近浏览：");
        s.append(when);
        assert(Some(s@) == latest_view_spec(message@, when@));
        Some(s)
    }
}

} // verus!

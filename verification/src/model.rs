//! Notifications of the pop-up notifier: the message a backend sends, the
//! item the windows show, category and priority codes, relative times and the
//! rules that decide whether an item may pop up.

use vstd::prelude::*;
use vstd::string::{StrSliceExecFns, StringExecFns};
use crate::config::FilterCfg;
use crate::fmt::{decimal_i64, decimal_text, digits, hex_u64};
use crate::text::{contains_str, lowercase, occurs_in, str_is, texts, to_lowercase};

verus! {

/// Unix seconds from the seconds elapsed since the epoch as the clock read
/// them: none (a clock before 1970) is 0, and a count beyond `i64` stops at
/// its largest value.
pub fn secs_from_epoch(elapsed: Option<u64>) -> (t: i64)
    ensures
        t == match elapsed {
            Some(s) => if s <= i64::MAX as u64 { s as int } else { i64::MAX as int },
            None => 0,
        },
{
    match elapsed {
        Some(s) => if s <= i64::MAX as u64 { s as i64 } else { i64::MAX },
        None => 0,
    }
}

/// The current time in Unix seconds (0 when the clock is before 1970).
pub fn now() -> (t: i64)
    ensures
        t >= 0,
{
    secs_from_epoch(crate::clock::epoch_secs())
}

/// A message as a backend sends it; absent fields are empty or zero.
#[derive(Debug, Clone)]
pub struct Msg {
    pub id: String,
    pub title: String,
    pub body: String,
    pub category: String,
    pub priority: String,
    pub url: String,
    pub ts: i64,
}

impl Default for Msg {
    fn default() -> (m: Self)
        ensures
            m.id@.len() == 0 && m.title@.len() == 0 && m.body@.len() == 0,
            m.category@.len() == 0 && m.priority@.len() == 0 && m.url@.len() == 0,
            m.ts == 0,
    {
        Msg {
            id: String::new(),
            title: String::new(),
            body: String::new(),
            category: String::new(),
            priority: String::new(),
            url: String::new(),
            ts: 0,
        }
    }
}

/// An item of the notification center and the pop-up.
#[derive(Debug, Clone)]
pub struct NItem {
    pub id: String,
    pub title: String,
    pub body: String,
    /// Category code (see [`cat_code`]).
    pub cat: i32,
    /// Priority code (see [`prio_code`]).
    pub prio: i32,
    /// Unix seconds.
    pub ts: i32,
    pub read: bool,
    /// Relative time text.
    pub rel: String,
    pub url: String,
}

/// An item as a value of the specification.
pub struct ItemModel {
    pub id: Seq<char>,
    pub title: Seq<char>,
    pub body: Seq<char>,
    pub cat: i32,
    pub prio: i32,
    pub ts: i32,
    pub read: bool,
    pub rel: Seq<char>,
    pub url: Seq<char>,
}

impl View for NItem {
    type V = ItemModel;

    open spec fn view(&self) -> ItemModel {
        ItemModel {
            id: self.id@,
            title: self.title@,
            body: self.body@,
            cat: self.cat,
            prio: self.prio,
            ts: self.ts,
            read: self.read,
            rel: self.rel@,
            url: self.url@,
        }
    }
}

pub open spec fn word_reminder() -> Seq<char> {
    seq!['r', 'e', 'm', 'i', 'n', 'd', 'e', 'r']
}

pub open spec fn word_system() -> Seq<char> {
    seq!['s', 'y', 's', 't', 'e', 'm']
}

pub open spec fn word_normal() -> Seq<char> {
    seq!['n', 'o', 'r', 'm', 'a', 'l']
}

pub open spec fn word_high() -> Seq<char> {
    seq!['h', 'i', 'g', 'h']
}

pub open spec fn word_urgent() -> Seq<char> {
    seq!['u', 'r', 'g', 'e', 'n', 't']
}

/// Category code: `reminder` 1, `system` 2, anything else (a message) 0.
pub open spec fn cat_code_spec(s: Seq<char>) -> i32 {
    if s == word_reminder() {
        1
    } else if s == word_system() {
        2
    } else {
        0
    }
}

/// Priority code: `normal` 1, `high` or `urgent` 2, anything else (low) 0.
pub open spec fn prio_code_spec(s: Seq<char>) -> i32 {
    if s == word_normal() {
        1
    } else if s == word_high() || s == word_urgent() {
        2
    } else {
        0
    }
}

pub fn cat_code(s: &str) -> (c: i32)
    ensures
        c == cat_code_spec(s@),
{
    if str_is(s, &vec!['r', 'e', 'm', 'i', 'n', 'd', 'e', 'r']) {
        1
    } else if str_is(s, &vec!['s', 'y', 's', 't', 'e', 'm']) {
        2
    } else {
        0
    }
}

pub fn prio_code(s: &str) -> (c: i32)
    ensures
        c == prio_code_spec(s@),
{
    if str_is(s, &vec!['n', 'o', 'r', 'm', 'a', 'l']) {
        1
    } else if str_is(s, &vec!['h', 'i', 'g', 'h']) || str_is(s, &vec!['u', 'r', 'g', 'e', 'n', 't']) {
        2
    } else {
        0
    }
}

pub open spec fn just_now() -> Seq<char> {
    seq!['刚', '刚']
}

pub open spec fn yesterday() -> Seq<char> {
    seq!['昨', '天']
}

pub open spec fn minutes_ago() -> Seq<char> {
    seq![' ', '分', '钟', '前']
}

pub open spec fn hours_ago() -> Seq<char> {
    seq![' ', '小', '时', '前']
}

pub open spec fn days_ago() -> Seq<char> {
    seq![' ', '天', '前']
}

/// The relative time of something `d` seconds old (a negative age counts as
/// zero): under a minute "just now", then whole minutes, whole hours,
/// "yesterday" before two days, whole days after.
pub open spec fn rel_text(d: int) -> Seq<char> {
    let d = if d < 0 { 0 } else { d };
    if d < 60 {
        just_now()
    } else if d < 3600 {
        decimal_text(d / 60) + minutes_ago()
    } else if d < 86400 {
        decimal_text(d / 3600) + hours_ago()
    } else if d < 172800 {
        yesterday()
    } else {
        decimal_text(d / 86400) + days_ago()
    }
}

/// The relative time of `ts` seen at `now`.
pub open spec fn rel_between(ts: i64, now: i64) -> Seq<char> {
    rel_text(now - ts)
}

/// The relative time of `ts` seen at time `now` (both Unix seconds).
pub fn rel_time_at(ts: i64, now: i64) -> (s: String)
    ensures
        s@ == rel_text(now - ts),
{
    let diff: i128 = now as i128 - ts as i128;
    let d: i128 = if diff < 0 { 0 } else { diff };
    proof {
        reveal_strlit("刚刚");
        reveal_strlit("昨天");
        reveal_strlit(" 分钟前");
        reveal_strlit(" 小时前");
        reveal_strlit(" 天前");
    }
    if d < 60 {
        let s = String::from_str("刚刚");
        assert(s@ =~= just_now());
        s
    } else if d < 3600 {
        let mut s = decimal_i64((d / 60) as i64);
        s.append(" 分钟前");
        assert(s@ =~= decimal_text(d / 60) + minutes_ago());
        s
    } else if d < 86400 {
        let mut s = decimal_i64((d / 3600) as i64);
        s.append(" 小时前");
        assert(s@ =~= decimal_text(d / 3600) + hours_ago());
        s
    } else if d < 172800 {
        let s = String::from_str("昨天");
        assert(s@ =~= yesterday());
        s
    } else {
        let mut s = decimal_i64((d / 86400) as i64);
        s.append(" 天前");
        assert(s@ =~= decimal_text(d / 86400) + days_ago());
        s
    }
}

/// The relative-time label by age `d` in seconds: under a minute (or in the
/// future) "刚刚"; under an hour the whole minutes and " 分钟前"; under a day
/// the whole hours and " 小时前"; under two days "昨天"; after that the whole
/// days and " 天前".
pub proof fn lemma_rel_text_bands(d: int)
    ensures
        d < 60 ==> rel_text(d) == seq!['刚', '刚'],
        60 <= d < 3600 ==> rel_text(d) == digits((d / 60) as nat, 10) + seq![' ', '分', '钟', '前'],
        3600 <= d < 86400 ==> rel_text(d) == digits((d / 3600) as nat, 10) + seq![' ', '小', '时', '前'],
        86400 <= d < 172800 ==> rel_text(d) == seq!['昨', '天'],
        172800 <= d ==> rel_text(d) == digits((d / 86400) as nat, 10) + seq![' ', '天', '前'],
{
}

/// The relative time of `ts` at the time of the call.
pub fn rel_time(ts: i64) -> (s: String)
    ensures
        exists|t: i64| s@ == #[trigger] rel_between(ts, t),
{
    let t = now();
    let s = rel_time_at(ts, t);
    assert(s@ == rel_between(ts, t));
    s
}

/// The id given to a message that came without one: its time and the
/// sequence number, both in hexadecimal, joined by `-`.
pub open spec fn generated_id(ts: i64, seq: u64) -> Seq<char> {
    digits(ts as u64 as nat, 16) + seq!['-'] + digits(seq as nat, 16)
}

/// Two messages numbered differently get different generated ids, whatever
/// their times.
pub proof fn lemma_generated_ids_differ(ts1: i64, s1: u64, ts2: i64, s2: u64)
    requires
        s1 != s2,
    ensures
        generated_id(ts1, s1) != generated_id(ts2, s2),
{
    let a1 = digits(ts1 as u64 as nat, 16);
    let a2 = digits(ts2 as u64 as nat, 16);
    let p1 = digits(s1 as nat, 16);
    let p2 = digits(s2 as nat, 16);
    let g1 = generated_id(ts1, s1);
    let g2 = generated_id(ts2, s2);
    crate::fmt::lemma_digits_no_dash(ts1 as u64 as nat, 16);
    crate::fmt::lemma_digits_no_dash(ts2 as u64 as nat, 16);
    crate::fmt::lemma_digits_no_dash(s1 as nat, 16);
    crate::fmt::lemma_digits_no_dash(s2 as nat, 16);
    if g1 == g2 {
        assert(g1[a1.len() as int] == '-');
        assert(g2[a2.len() as int] == '-');
        if a1.len() < a2.len() {
            assert(g2[a1.len() as int] == a2[a1.len() as int]);
        } else if a2.len() < a1.len() {
            assert(g1[a2.len() as int] == a1[a2.len() as int]);
        }
        assert(a1.len() == a2.len());
        assert(p1 =~= g1.subrange(a1.len() as int + 1, g1.len() as int));
        assert(p2 =~= g2.subrange(a2.len() as int + 1, g2.len() as int));
        crate::fmt::lemma_digits_injective(s1 as nat, s2 as nat, 16);
    }
}

/// The number after `n`, wrapping from the largest back to zero.
pub open spec fn after(n: u64) -> u64 {
    if n == u64::MAX { 0 } else { (n + 1) as u64 }
}

/// Numbers the messages that come without an id: one number after the other,
/// so that no number comes twice before all 2⁶⁴ were handed out.
#[derive(Debug)]
pub struct IdSequence {
    next: u64,
}

impl IdSequence {
    /// The number handed out next.
    pub closed spec fn next(&self) -> u64 {
        self.next
    }

    /// A sequence that starts at one.
    pub fn new() -> (s: Self)
        ensures
            s.next() == 1,
    {
        IdSequence { next: 1 }
    }

    /// Hands out the next number.
    pub fn take(&mut self) -> (n: u64)
        ensures
            n == old(self).next(),
            final(self).next() == after(old(self).next()),
    {
        let n = self.next;
        self.next = if n == u64::MAX { 0 } else { n + 1 };
        n
    }
}

/// The item a message becomes when it arrives at time `now`: a missing time
/// (zero or less) is `now`, a missing id is generated from the time and the
/// sequence number `seq`, the codes are read from the names, the item is
/// unread and its relative time is taken at `now`.
pub open spec fn item_spec(m: Msg, now: i64, seq: u64) -> ItemModel {
    let ts = if m.ts > 0 { m.ts } else { now };
    ItemModel {
        id: if m.id@.len() == 0 { generated_id(ts, seq) } else { m.id@ },
        title: m.title@,
        body: m.body@,
        cat: cat_code_spec(m.category@),
        prio: prio_code_spec(m.priority@),
        ts: ts as i32,
        read: false,
        rel: rel_text(now - ts),
        url: m.url@,
    }
}

/// The item a message becomes when it arrives at time `now`.
pub fn to_item_at(m: Msg, now: i64, seq: u64) -> (it: NItem)
    ensures
        it@ == item_spec(m, now, seq),
{
    let ghost m0 = m;
    let ts: i64 = if m.ts > 0 { m.ts } else { now };
    let id = if m.id.unicode_len() == 0 {
        let mut s = hex_u64(ts as u64);
        s.append("-");
        let tail = hex_u64(seq);
        s.append(tail.as_str());
        proof {
            reveal_strlit("-");
        }
        assert(s@ =~= generated_id(ts, seq));
        s
    } else {
        m.id
    };
    let cat = cat_code(m.category.as_str());
    let prio = prio_code(m.priority.as_str());
    let rel = rel_time_at(ts, now);
    let it = NItem { id, title: m.title, body: m.body, cat, prio, ts: ts as i32, read: false, rel, url: m.url };
    assert(it@ == item_spec(m0, now, seq));
    it
}

/// The item a message becomes now; a message without an id takes the next
/// number of `ids` for its generated id.
pub fn to_item(m: Msg, ids: &mut IdSequence) -> (it: NItem)
    ensures
        exists|now: i64| it@ == #[trigger] item_spec(m, now, old(ids).next()),
        m.id@.len() == 0 ==> final(ids).next() == after(old(ids).next()),
        m.id@.len() != 0 ==> final(ids).next() == old(ids).next(),
{
    let t = now();
    let ghost m0 = m;
    let seq = if m.id.unicode_len() == 0 { ids.take() } else { 0 };
    let it = to_item_at(m, t, seq);
    assert(it@ == item_spec(m0, t, old(ids).next()));
    it
}

/// The text the keyword rules search: title and body, lower-cased.
pub open spec fn searched_text(it: ItemModel) -> Seq<char> {
    lowercase(it.title + seq![' '] + it.body)
}

/// Whether an item gets through the filter rules, to be kept and popped up
/// rather than dropped: its category is allowed (an empty list allows all), its
/// priority reaches the minimum, no blocked keyword occurs in it, and, when
/// `only` keywords are set, one of them does. Keywords match case-insensitively.
pub open spec fn passes_spec(
    categories: Seq<Seq<char>>,
    min_priority: Seq<char>,
    block: Seq<Seq<char>>,
    only: Seq<Seq<char>>,
    it: ItemModel,
) -> bool {
    let text = searched_text(it);
    &&& (categories.len() == 0 || exists|i: int| 0 <= i < categories.len() && cat_code_spec(#[trigger] categories[i]) == it.cat)
    &&& !(it.prio < prio_code_spec(min_priority))
    &&& !(exists|i: int| 0 <= i < block.len() && occurs_in(lowercase(#[trigger] block[i]), text))
    &&& (only.len() == 0 || exists|i: int| 0 <= i < only.len() && occurs_in(lowercase(#[trigger] only[i]), text))
}

/// Whether some keyword of `keys` occurs in `text` (lower-cased keywords).
fn any_occurs(keys: &Vec<String>, text: &str) -> (r: bool)
    ensures
        r == exists|i: int| 0 <= i < keys@.len() && occurs_in(lowercase(#[trigger] texts(keys@)[i]), text@),
{
    let n = keys.len();
    let mut i: usize = 0;
    while i < n
        invariant
            n == keys@.len(),
            i <= n,
            forall|j: int| 0 <= j < i ==> !occurs_in(lowercase(#[trigger] texts(keys@)[j]), text@),
        decreases n - i,
    {
        let k = to_lowercase(keys[i].as_str());
        if contains_str(text, k.as_str()) {
            assert(occurs_in(lowercase(texts(keys@)[i as int]), text@));
            return true;
        }
        i = i + 1;
    }
    false
}

/// Each filter rule can drop an item on its own: a category outside a
/// non-empty allow list, a priority under the minimum, any blocked keyword
/// found (case-insensitively) in "title body", or, with `only` keywords set,
/// none of them found. With no lists set, only the priority decides.
pub proof fn lemma_filter_rules(
    categories: Seq<Seq<char>>,
    min_priority: Seq<char>,
    block: Seq<Seq<char>>,
    only: Seq<Seq<char>>,
    it: ItemModel,
)
    ensures
        forall|i: int|
            0 <= i < block.len() && occurs_in(lowercase(#[trigger] block[i]), lowercase(it.title + seq![' '] + it.body))
                ==> !passes_spec(categories, min_priority, block, only, it),
        it.prio < prio_code_spec(min_priority) ==> !passes_spec(categories, min_priority, block, only, it),
        (categories.len() > 0 && forall|i: int| 0 <= i < categories.len() ==> cat_code_spec(#[trigger] categories[i]) != it.cat)
            ==> !passes_spec(categories, min_priority, block, only, it),
        (only.len() > 0 && forall|i: int|
            0 <= i < only.len() ==> !occurs_in(lowercase(#[trigger] only[i]), lowercase(it.title + seq![' '] + it.body)))
            ==> !passes_spec(categories, min_priority, block, only, it),
        (categories.len() == 0 && block.len() == 0 && only.len() == 0)
            ==> (passes_spec(categories, min_priority, block, only, it) <==> it.prio >= prio_code_spec(min_priority)),
{
}

pub fn passes(f: &FilterCfg, it: &NItem) -> (r: bool)
    ensures
        r == passes_spec(texts(f.categories@), f.min_priority@, texts(f.block@), texts(f.only@), it@),
{
    let ghost cats = texts(f.categories@);
    if f.categories.len() > 0 {
        let n = f.categories.len();
        let mut found = false;
        let mut i: usize = 0;
        while i < n
            invariant
                n == f.categories@.len(),
                cats == texts(f.categories@),
                i <= n,
                found == exists|j: int| 0 <= j < i && cat_code_spec(#[trigger] cats[j]) == it.cat,
            decreases n - i,
        {
            assert(cats[i as int] == f.categories@[i as int]@);
            if cat_code(f.categories[i].as_str()) == it.cat {
                found = true;
            }
            i = i + 1;
        }
        if !found {
            return false;
        }
    }
    if it.prio < prio_code(f.min_priority.as_str()) {
        return false;
    }
    let mut joined = it.title.clone();
    joined.append(" ");
    joined.append(it.body.as_str());
    proof {
        reveal_strlit(" ");
    }
    assert(joined@ =~= it@.title + seq![' '] + it@.body);
    let text = to_lowercase(joined.as_str());
    if any_occurs(&f.block, text.as_str()) {
        return false;
    }
    if f.only.len() > 0 && !any_occurs(&f.only, text.as_str()) {
        return false;
    }
    true
}

} // verus!

//! The toast stack at the corner of the screen: what each card shows, which
//! cards stay, and the ids their animations are keyed by. Windows, timers
//! and animation run outside the library.

use vstd::prelude::*;
use crate::notice_model::{MessageModel, NoticeKind, NoticeMessage, summary_or_body_spec};
use crate::text::chars_of;
use vstd::string::StringSliceAdditionalSpecFns;

verus! {

/// The content of one toast card.
#[derive(Debug, Clone)]
pub struct ToastItem {
    pub id: String,
    pub title: String,
    /// The summary, at most 80 characters.
    pub summary: String,
    pub kind: NoticeKind,
    /// When the card was pushed (Unix seconds).
    pub created_at: i64,
}

/// The first `n` characters of `s` (all of them when it is shorter).
pub open spec fn first_chars(s: Seq<char>, n: nat) -> Seq<char> {
    if s.len() <= n { s } else { s.subrange(0, n as int) }
}

/// The first `n` characters of `s`.
pub fn take_chars(s: &str, n: usize) -> (r: String)
    ensures
        r@ == first_chars(s@, n as nat),
{
    let chars = chars_of(s);
    let end = if chars.len() <= n { chars.len() } else { n };
    let mut r = String::new();
    let mut i: usize = 0;
    while i < end
        invariant
            end <= chars@.len(),
            chars@ == s@,
            i <= end,
            end == (if chars@.len() <= n { chars@.len() } else { n as nat }),
            r@ == chars@.subrange(0, i as int),
        decreases end - i,
    {
        crate::fmt::push_char(&mut r, chars[i]);
        i = i + 1;
        assert(r@ =~= chars@.subrange(0, i as int));
    }
    assert(r@ =~= first_chars(s@, n as nat));
    r
}

impl ToastItem {
    /// The card of a message pushed at `now_unix`: its id, title, kind, and
    /// the first 80 characters of its summary (or body; empty when neither).
    pub fn from_notice(message: &NoticeMessage, now_unix: i64) -> (t: Self)
        ensures
            t.id@ == message@.id,
            t.title@ == message@.content.title,
            t.summary@ == match summary_or_body_spec(message@) {
                Some(s) => first_chars(s, 80),
                None => Seq::empty(),
            },
            t.kind == message@.meta.kind,
            t.created_at == now_unix,
    {
        let summary = match message.summary_or_body() {
            Some(s) => take_chars(s, 80),
            None => String::new(),
        };
        ToastItem {
            id: message.id.clone(),
            title: message.content.title.clone(),
            summary,
            kind: message.meta.kind,
            created_at: now_unix,
        }
    }
}

/// Seconds a card stays.
pub open spec fn toast_ttl() -> int {
    5
}

/// Cards shown at once.
pub open spec fn max_toasts() -> nat {
    4
}

/// The toast stack: cards in the order they came, oldest first.
pub struct ToastWindow {
    pub toasts: Vec<ToastItem>,
}

/// Cards still young at `now`.
pub open spec fn live_cards(v: Seq<ToastItem>, now: i64) -> Seq<ToastItem>
    decreases v.len(),
{
    if v.len() == 0 {
        v
    } else if now - v.last().created_at < toast_ttl() {
        live_cards(v.drop_last(), now).push(v.last())
    } else {
        live_cards(v.drop_last(), now)
    }
}

/// `v` without the cards of id `id`.
pub open spec fn without_card(v: Seq<ToastItem>, id: Seq<char>) -> Seq<ToastItem>
    decreases v.len(),
{
    if v.len() == 0 {
        v
    } else if v.last().id@ == id {
        without_card(v.drop_last(), id)
    } else {
        without_card(v.drop_last(), id).push(v.last())
    }
}

impl ToastWindow {
    pub fn new() -> (w: Self)
        ensures
            w.toasts@.len() == 0,
    {
        ToastWindow { toasts: Vec::new() }
    }

    /// Adds a card; past four cards the oldest goes.
    pub fn push(&mut self, item: ToastItem)
        ensures
            final(self).toasts@ == if old(self).toasts@.len() + 1 > max_toasts() {
                old(self).toasts@.push(item).drop_first()
            } else {
                old(self).toasts@.push(item)
            },
    {
        self.toasts.push(item);
        if self.toasts.len() > 4 {
            let _oldest = self.toasts.remove(0);
            assert(self.toasts@ =~= old(self).toasts@.push(item).drop_first());
        }
    }

    /// Drops the cards whose time is up at `now_unix` (five seconds after they
    /// came); says whether one went.
    pub fn expire(&mut self, now_unix: i64) -> (changed: bool)
        ensures
            final(self).toasts@ == live_cards(old(self).toasts@, now_unix),
            changed == (final(self).toasts@.len() != old(self).toasts@.len()),
    {
        let ghost v = self.toasts@;
        let n = self.toasts.len();
        let mut i: usize = 0;
        let mut k: usize = 0;
        while k < n
            invariant
                n == v.len(),
                k <= n,
                i <= k,
                i == live_cards(v.take(k as int), now_unix).len(),
                self.toasts@ == live_cards(v.take(k as int), now_unix) + v.subrange(k as int, n as int),
            decreases n - k,
        {
            assert(v.take(k + 1).drop_last() =~= v.take(k as int));
            assert(self.toasts@[i as int] == v[k as int]);
            let age: i128 = now_unix as i128 - self.toasts[i].created_at as i128;
            if age < 5 {
                assert(live_cards(v.take(k + 1), now_unix) =~= live_cards(v.take(k as int), now_unix).push(v[k as int]));
                assert(self.toasts@ =~= live_cards(v.take(k + 1), now_unix) + v.subrange(k + 1, n as int));
                i = i + 1;
            } else {
                let ghost cur = self.toasts@;
                let _gone = self.toasts.remove(i);
                assert(self.toasts@ =~= live_cards(v.take(k + 1), now_unix) + v.subrange(k + 1, n as int));
            }
            k = k + 1;
        }
        assert(v.take(n as int) =~= v);
        proof {
            lemma_live_len(v, now_unix);
        }
        self.toasts.len() != n
    }

    /// Drops the cards of id `id`; says whether one went.
    pub fn remove(&mut self, id: &str) -> (changed: bool)
        ensures
            final(self).toasts@ == without_card(old(self).toasts@, id@),
            changed == (final(self).toasts@.len() != old(self).toasts@.len()),
    {
        let ghost v = self.toasts@;
        let key = id.to_owned();
        let n = self.toasts.len();
        let mut i: usize = 0;
        let mut k: usize = 0;
        while k < n
            invariant
                n == v.len(),
                key@ == id@,
                k <= n,
                i <= k,
                i == without_card(v.take(k as int), id@).len(),
                self.toasts@ == without_card(v.take(k as int), id@) + v.subrange(k as int, n as int),
            decreases n - k,
        {
            assert(v.take(k + 1).drop_last() =~= v.take(k as int));
            assert(self.toasts@[i as int] == v[k as int]);
            if self.toasts[i].id == key {
                let _gone = self.toasts.remove(i);
                assert(self.toasts@ =~= without_card(v.take(k + 1), id@) + v.subrange(k + 1, n as int));
            } else {
                assert(without_card(v.take(k + 1), id@) =~= without_card(v.take(k as int), id@).push(v[k as int]));
                assert(self.toasts@ =~= without_card(v.take(k + 1), id@) + v.subrange(k + 1, n as int));
                i = i + 1;
            }
            k = k + 1;
        }
        assert(v.take(n as int) =~= v);
        self.toasts.len() != n
    }
}

proof fn lemma_live_len(v: Seq<ToastItem>, now: i64)
    ensures
        live_cards(v, now).len() <= v.len(),
    decreases v.len(),
{
    if v.len() > 0 {
        lemma_live_len(v.drop_last(), now);
    }
}

/// The FNV-1a hash of some bytes (64 bits).
pub open spec fn fnv1a(bytes: Seq<u8>) -> u64
    decreases bytes.len(),
{
    if bytes.len() == 0 {
        0xcbf29ce484222325u64
    } else {
        (((fnv1a(bytes.drop_last()) ^ (bytes.last() as u64)) as nat * 0x100000001b3nat) % 0x1_0000_0000_0000_0000nat) as u64
    }
}

/// A string's FNV-1a hash (keys the card animations).
pub fn hash_id(s: &str) -> (h: u64)
    ensures
        h == fnv1a(s.spec_bytes()),
{
    let bytes = s.as_bytes();
    let n = bytes.len();
    let mut h: u64 = 0xcbf29ce484222325;
    let mut i: usize = 0;
    while i < n
        invariant
            n == bytes@.len(),
            i <= n,
            h == fnv1a(bytes@.take(i as int)),
        decreases n - i,
    {
        assert(bytes@.take(i + 1).drop_last() =~= bytes@.take(i as int));
        h = h ^ (bytes[i] as u64);
        h = h.wrapping_mul(0x100000001b3);
        i = i + 1;
    }
    assert(bytes@.take(n as int) =~= bytes@);
    h
}

/// The stack never shows more than four cards: pushing onto a stack of at
/// most four leaves at most four, the newest last.
pub proof fn lemma_push_bounded(v: Seq<ToastItem>, item: ToastItem)
    requires
        v.len() <= max_toasts(),
    ensures
        ({
            let w = if v.len() + 1 > max_toasts() { v.push(item).drop_first() } else { v.push(item) };
            &&& w.len() <= max_toasts()
            &&& w.last() == item
        }),
{
}

} // verus!

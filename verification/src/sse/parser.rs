//! Incremental parser for Server-Sent Events.
//!
//! `feed()` takes raw bytes in chunks of any size; a line cut by a chunk
//! boundary is buffered until its end arrives. Finished events are queued and
//! handed out by `drain()`.

use std::collections::VecDeque;
use vstd::prelude::*;
use vstd::string::StrSliceExecFns;
use crate::text::{
    chars_of, prefix_is, from_utf8_lossy, opt_text, parse_u64, parse_u64_spec, trim_str, trim_ws, line_text,
};

verus! {

/// One complete SSE event.
#[derive(Debug, Clone, PartialEq, Eq)]
pub struct SseMessage {
    /// The `event:` field, `None` when the event named none.
    pub event: Option<String>,
    /// The `data:` lines, joined with `\n`.
    pub data: String,
    /// The `id:` field, `None` when the event named none.
    pub id: Option<String>,
    /// The `retry:` field (milliseconds).
    pub retry: Option<u64>,
}

/// An SSE event as a value of the specification.
pub struct MessageModel {
    pub event: Option<Seq<char>>,
    pub data: Seq<char>,
    pub id: Option<Seq<char>>,
    pub retry: Option<u64>,
}


impl View for SseMessage {
    type V = MessageModel;

    open spec fn view(&self) -> MessageModel {
        MessageModel { event: opt_text(self.event), data: self.data@, id: opt_text(self.id), retry: self.retry }
    }
}

/// The state of a parser: the unfinished line, the finished events not yet
/// drained, and the fields of the event under construction.
pub struct ParserModel {
    pub buffer: Seq<u8>,
    pub pending: Seq<MessageModel>,
    pub event: Option<Seq<char>>,
    pub data: Seq<char>,
    pub id: Option<Seq<char>>,
    pub retry: Option<u64>,
    pub saw_data: bool,
}

pub open spec fn newline() -> u8 {
    10u8
}

/// `line` without one trailing carriage return.
pub open spec fn strip_cr(line: Seq<u8>) -> Seq<u8> {
    if line.len() > 0 && line.last() == 13u8 {
        line.drop_last()
    } else {
        line
    }
}

/// `i` is the position of the first `:` in `s`.
pub open spec fn first_colon_at(s: Seq<char>, i: int) -> bool {
    &&& 0 <= i < s.len()
    &&& s[i] == ':'
    &&& forall|j: int| 0 <= j < i ==> s[j] != ':'
}

/// A field line split into name and value: the name is everything before the
/// first `:`, the value everything after it less one leading space; a line
/// without `:` is a name with an empty value.
pub open spec fn split_field(s: Seq<char>) -> (Seq<char>, Seq<char>) {
    if exists|i: int| first_colon_at(s, i) {
        let i = choose|i: int| first_colon_at(s, i);
        let v = s.subrange(i + 1, s.len() as int);
        (s.subrange(0, i), if v.len() > 0 && v[0] == ' ' { v.drop_first() } else { v })
    } else {
        (s, Seq::empty())
    }
}

pub open spec fn word_event() -> Seq<char> {
    seq!['e', 'v', 'e', 'n', 't']
}

pub open spec fn word_data() -> Seq<char> {
    seq!['d', 'a', 't', 'a']
}

pub open spec fn word_id() -> Seq<char> {
    seq!['i', 'd']
}

pub open spec fn word_retry() -> Seq<char> {
    seq!['r', 'e', 't', 'r', 'y']
}

/// `data` after one more `data:` line: joined to what came before with `\n`.
pub open spec fn append_data(data: Seq<char>, value: Seq<char>) -> Seq<char> {
    if data.len() == 0 {
        value
    } else {
        data.push('\n') + value
    }
}

/// The effect of one named field on the event under construction.
pub open spec fn apply_field(st: ParserModel, field: Seq<char>, value: Seq<char>) -> ParserModel {
    if field == word_event() {
        ParserModel { event: Some(value), ..st }
    } else if field == word_data() {
        ParserModel { saw_data: true, data: append_data(st.data, value), ..st }
    } else if field == word_id() {
        ParserModel { id: Some(value), ..st }
    } else if field == word_retry() {
        match parse_u64_spec(trim_ws(value)) {
            Some(r) => ParserModel { retry: Some(r), ..st },
            None => st,
        }
    } else {
        st
    }
}

/// A blank line ends the event: it is queued when it carried data or a name,
/// and the fields start over.
pub open spec fn finalize_spec(st: ParserModel) -> ParserModel {
    let dispatch = st.saw_data || st.data.len() > 0 || st.event is Some;
    ParserModel {
        buffer: st.buffer,
        pending: if dispatch {
            st.pending.push(MessageModel { event: st.event, data: st.data, id: st.id, retry: st.retry })
        } else {
            st.pending
        },
        event: None,
        data: Seq::empty(),
        id: None,
        retry: None,
        saw_data: false,
    }
}

/// The effect of one complete line (its `\n` removed).
pub open spec fn line_spec(st: ParserModel, raw: Seq<u8>) -> ParserModel {
    let line = strip_cr(raw);
    if line.len() == 0 {
        finalize_spec(st)
    } else if line[0] == 58u8 {
        st
    } else {
        let parts = split_field(line_text(line));
        apply_field(st, parts.0, parts.1)
    }
}

/// The effect of one byte: `\n` completes the buffered line, any other byte
/// extends it.
pub open spec fn byte_spec(st: ParserModel, b: u8) -> ParserModel {
    if b == newline() {
        line_spec(ParserModel { buffer: Seq::empty(), ..st }, st.buffer)
    } else {
        ParserModel { buffer: st.buffer.push(b), ..st }
    }
}

/// The effect of a run of bytes, one byte after the other.
pub open spec fn feed_spec(st: ParserModel, bytes: Seq<u8>) -> ParserModel
    decreases bytes.len(),
{
    if bytes.len() == 0 {
        st
    } else {
        byte_spec(feed_spec(st, bytes.drop_last()), bytes.last())
    }
}

/// `st` with another partial line.
pub open spec fn with_buffer(st: ParserModel, buffer: Seq<u8>) -> ParserModel {
    ParserModel { buffer, ..st }
}

/// `st` once its finished events were handed out.
pub open spec fn drained(st: ParserModel) -> ParserModel {
    ParserModel { pending: Seq::empty(), ..st }
}

/// A parser that has been fed nothing.
pub open spec fn initial_model() -> ParserModel {
    ParserModel {
        buffer: Seq::empty(),
        pending: Seq::empty(),
        event: None,
        data: Seq::empty(),
        id: None,
        retry: None,
        saw_data: false,
    }
}

/// Incremental parser: its state carries over from one `feed` to the next.
#[derive(Debug)]
pub struct SseParser {
    buffer: Vec<u8>,
    pending: VecDeque<SseMessage>,
    event: Option<String>,
    data: String,
    id: Option<String>,
    retry: Option<u64>,
    saw_data: bool,
}

impl View for SseParser {
    type V = ParserModel;

    closed spec fn view(&self) -> ParserModel {
        ParserModel {
            buffer: self.buffer@,
            pending: self.pending@.map_values(|m: SseMessage| m@),
            event: opt_text(self.event),
            data: self.data@,
            id: opt_text(self.id),
            retry: self.retry,
            saw_data: self.saw_data,
        }
    }
}

impl SseParser {
    /// The buffered partial line holds no line break.
    pub closed spec fn wf(&self) -> bool {
        forall|i: int| 0 <= i < self.buffer@.len() ==> self.buffer@[i] != newline()
    }

    pub fn new() -> (p: Self)
        ensures
            p.wf(),
            p@ == initial_model(),
    {
        let p = SseParser {
            buffer: Vec::new(),
            pending: VecDeque::new(),
            event: None,
            data: String::new(),
            id: None,
            retry: None,
            saw_data: false,
        };
        assert(p@.pending =~= Seq::<MessageModel>::empty());
        p
    }

    /// Feeds a chunk of bytes. Every line completed by it is processed; events
    /// ended by a blank line are queued for [`Self::drain`].
    pub fn feed(&mut self, chunk: &[u8])
        requires
            old(self).wf(),
        ensures
            final(self).wf(),
            final(self)@ == feed_spec(old(self)@, chunk@),
    {
        let ghost st0 = self@;
        let mut buf: Vec<u8> = Vec::new();
        std::mem::swap(&mut buf, &mut self.buffer);
        let old_len = buf.len();
        buf.extend_from_slice(chunk);
        assert(buf@ =~= st0.buffer + chunk@);
        let total = buf.len();
        let mut start: usize = 0;
        let mut i: usize = old_len;
        assert(chunk@.subrange(0, 0) =~= Seq::<u8>::empty());
        assert(buf@.subrange(0, old_len as int) =~= st0.buffer);
        assert(self@.pending =~= st0.pending);
        assert(with_buffer(self@, st0.buffer) == st0);
        while i < total
            invariant
                total == buf@.len(),
                buf@ == st0.buffer + chunk@,
                old_len == st0.buffer.len(),
                start <= i <= total,
                old_len <= i,
                self.buffer@.len() == 0,
                forall|k: int| start <= k < i ==> buf@[k] != newline(),
                feed_spec(st0, chunk@.subrange(0, i - old_len)) == with_buffer(self@, buf@.subrange(start as int, i as int)),
            decreases total - i,
        {
            let ghost before = self@;
            let ghost pre = feed_spec(st0, chunk@.subrange(0, i - old_len));
            assert(chunk@.subrange(0, i + 1 - old_len).drop_last() =~= chunk@.subrange(0, i - old_len));
            assert(chunk@.subrange(0, i + 1 - old_len).last() == buf@[i as int]);
            if buf[i] == 10u8 {
                let line = &buf[start..i];
                assert(with_buffer(pre, Seq::empty()) == with_buffer(before, Seq::empty()));
                assert(before.buffer =~= Seq::<u8>::empty());
                assert(with_buffer(before, Seq::empty()) == before);
                self.process_line(line);
                start = i + 1;
                assert(self@.buffer =~= buf@.subrange(start as int, i + 1));
                assert(with_buffer(self@, buf@.subrange(start as int, i + 1)) == self@);
            } else {
                assert(buf@.subrange(start as int, i + 1) =~= buf@.subrange(start as int, i as int).push(buf@[i as int]));
            }
            i = i + 1;
        }
        assert(chunk@.subrange(0, total - old_len) =~= chunk@);
        let rest = buf.split_off(start);
        self.buffer = rest;
    }

    /// Hands out every finished event, oldest first, and forgets them.
    pub fn drain(&mut self) -> (out: Vec<SseMessage>)
        requires
            old(self).wf(),
        ensures
            final(self).wf(),
            out@.map_values(|m: SseMessage| m@) == old(self)@.pending,
            final(self)@ == drained(old(self)@),
    {
        let ghost all = old(self)@.pending;
        let mut out: Vec<SseMessage> = Vec::new();
        loop
            invariant
                self.wf(),
                self@ == (ParserModel { pending: self@.pending, ..old(self)@ }),
                out@.map_values(|m: SseMessage| m@) + self@.pending == all,
            ensures
                self.wf(),
                out@.map_values(|m: SseMessage| m@) == all,
                self@ == drained(old(self)@),
            decreases self.pending@.len(),
        {
            let ghost before = self.pending@;
            match self.pending.pop_front() {
                Some(m) => {
                    let ghost mv = m@;
                    out.push(m);
                    assert(self.pending@ == before.subrange(1, before.len() as int));
                    assert(self@.pending =~= before.map_values(|x: SseMessage| x@).subrange(1, before.len() as int));
                    assert(out@.map_values(|x: SseMessage| x@) + self@.pending =~= all);
                },
                None => {
                    assert(self@.pending =~= Seq::<MessageModel>::empty());
                    assert(out@.map_values(|x: SseMessage| x@) =~= all);
                    assert(self@ == drained(old(self)@));
                    break;
                },
            }
        }
        out
    }

    /// Processes one line, its line break removed.
    fn process_line(&mut self, raw_line: &[u8])
        requires
            old(self).buffer@.len() == 0,
        ensures
            final(self).buffer@.len() == 0,
            final(self)@ == line_spec(old(self)@, raw_line@),
    {
        let mut line = raw_line;
        let n = line.len();
        if n > 0 && line[n - 1] == 13u8 {
            line = &line[0..n - 1];
            assert(line@ =~= raw_line@.drop_last());
        }
        assert(line@ == strip_cr(raw_line@));
        if line.len() == 0 {
            self.finalize_event();
            return;
        }
        if line[0] == 58u8 {
            return;
        }
        let text = from_utf8_lossy(line);
        let chars = chars_of(text.as_str());
        let len = chars.len();
        let mut idx: usize = 0;
        while idx < len && chars[idx] != ':'
            invariant
                len == chars@.len(),
                idx <= len,
                forall|j: int| 0 <= j < idx ==> chars@[j] != ':',
            decreases len - idx,
        {
            idx = idx + 1;
        }
        let ghost parts = split_field(text@);
        let field_end: usize;
        let value: &str;
        if idx < len {
            assert(first_colon_at(text@, idx as int));
            proof {
                let c = choose|c: int| first_colon_at(text@, c);
                assert(c == idx as int) by {
                    if c < idx as int {
                        assert(chars@[c] != ':');
                    } else if c > idx as int {
                        assert(text@[idx as int] != ':');
                    }
                }
            }
            field_end = idx;
            let mut vstart = idx + 1;
            if vstart < len && chars[vstart] == ' ' {
                vstart = vstart + 1;
            }
            value = text.as_str().substring_char(vstart, len);
            assert(value@ =~= parts.1);
        } else {
            assert(!exists|i: int| first_colon_at(text@, i));
            field_end = len;
            value = "";
            proof {
                reveal_strlit("");
            }
            assert(value@ =~= parts.1);
        }
        assert(chars@.subrange(0, field_end as int) =~= parts.0);
        if prefix_is(&chars, field_end, &vec!['e', 'v', 'e', 'n', 't']) {
            self.event = Some(value.to_owned());
        } else if prefix_is(&chars, field_end, &vec!['d', 'a', 't', 'a']) {
            self.saw_data = true;
            if self.data.unicode_len() > 0 {
                self.data.append("\n");
                proof {
                    reveal_strlit("\n");
                }
            }
            self.data.append(value);
            assert(self.data@ =~= append_data(old(self)@.data, value@));
        } else if prefix_is(&chars, field_end, &vec!['i', 'd']) {
            self.id = Some(value.to_owned());
        } else if prefix_is(&chars, field_end, &vec!['r', 'e', 't', 'r', 'y']) {
            if let Some(r) = parse_u64(trim_str(value)) {
                self.retry = Some(r);
            }
        }
    }

    /// A blank line: queue the event if it carried data or a name, then start over.
    fn finalize_event(&mut self)
        requires
            old(self).buffer@.len() == 0,
        ensures
            final(self).buffer@.len() == 0,
            final(self)@ == finalize_spec(old(self)@),
    {
        let has_data = self.saw_data || self.data.unicode_len() > 0;
        if has_data || self.event.is_some() {
            let mut data = String::new();
            std::mem::swap(&mut data, &mut self.data);
            let mut event = None;
            std::mem::swap(&mut event, &mut self.event);
            let mut id = None;
            std::mem::swap(&mut id, &mut self.id);
            let msg = SseMessage { event, data, id, retry: self.retry };
            self.pending.push_back(msg);
        }
        self.event = None;
        self.id = None;
        self.retry = None;
        self.saw_data = false;
        self.data = String::new();
        assert(self@.pending =~= finalize_spec(old(self)@).pending);
    }
}


/// `st` with `p` queued before its own finished events.
pub open spec fn with_pending_prefix(p: Seq<MessageModel>, st: ParserModel) -> ParserModel {
    ParserModel { pending: p + st.pending, ..st }
}

/// Where a stream is cut into chunks does not matter: feeding `a` and then
/// `b` leaves the parser exactly as feeding `a + b` at once.
pub proof fn lemma_feed_chunking(s: ParserModel, a: Seq<u8>, b: Seq<u8>)
    ensures
        feed_spec(feed_spec(s, a), b) == feed_spec(s, a + b),
    decreases b.len(),
{
    if b.len() == 0 {
        assert(a + b =~= a);
    } else {
        lemma_feed_chunking(s, a, b.drop_last());
        assert((a + b).drop_last() =~= a + b.drop_last());
        assert((a + b).last() == b.last());
    }
}

proof fn lemma_line_prefix(p: Seq<MessageModel>, st: ParserModel, raw: Seq<u8>)
    ensures
        line_spec(with_pending_prefix(p, st), raw) == with_pending_prefix(p, line_spec(st, raw)),
{
    let line = strip_cr(raw);
    if line.len() == 0 {
        let m = MessageModel { event: st.event, data: st.data, id: st.id, retry: st.retry };
        assert((p + st.pending).push(m) =~= p + st.pending.push(m));
    } else if line[0] == 58u8 {
    } else {
        let parts = split_field(line_text(line));
        if parts.0 == word_retry() {
            match parse_u64_spec(trim_ws(parts.1)) {
                Some(r) => {},
                None => {},
            }
        }
    }
}

proof fn lemma_byte_prefix(p: Seq<MessageModel>, st: ParserModel, b: u8)
    ensures
        byte_spec(with_pending_prefix(p, st), b) == with_pending_prefix(p, byte_spec(st, b)),
{
    if b == newline() {
        lemma_line_prefix(p, ParserModel { buffer: Seq::empty(), ..st }, st.buffer);
    }
}

/// Draining between chunks loses and reorders nothing: what a parser queues
/// while fed `b` comes after what it had queued before, and the rest of its
/// state does not depend on whether those were drained.
pub proof fn lemma_feed_after_drain(s: ParserModel, b: Seq<u8>)
    ensures
        feed_spec(s, b) == with_pending_prefix(s.pending, feed_spec(drained(s), b)),
    decreases b.len(),
{
    if b.len() == 0 {
        assert(s.pending + Seq::<MessageModel>::empty() =~= s.pending);
    } else {
        lemma_feed_after_drain(s, b.drop_last());
        lemma_byte_prefix(s.pending, feed_spec(drained(s), b.drop_last()), b.last());
    }
}

/// A blank line ends the event under construction: it is queued, with the
/// name, data, id and retry its own lines gave it, exactly when those lines
/// gave it data or a name, and afterwards nothing of it is left: no name, no
/// data, no id, no retry.
pub proof fn lemma_blank_line_ends_event(st: ParserModel)
    requires
        st.buffer.len() == 0,
    ensures
        ({
            let after = feed_spec(st, seq![10u8]);
            let had = st.saw_data || st.data.len() > 0 || st.event is Some;
            &&& after.event is None
            &&& after.data.len() == 0
            &&& after.id is None
            &&& after.retry is None
            &&& !after.saw_data
            &&& after.buffer.len() == 0
            &&& had ==> after.pending == st.pending.push(
                MessageModel { event: st.event, data: st.data, id: st.id, retry: st.retry },
            )
            &&& !had ==> after.pending == st.pending
        }),
{
    let nl = seq![10u8];
    assert(nl.drop_last() =~= Seq::<u8>::empty());
    assert(nl.last() == newline());
    let cleared = ParserModel { buffer: Seq::empty(), ..st };
    assert(strip_cr(st.buffer) =~= st.buffer);
    assert(feed_spec(st, Seq::<u8>::empty()) == st);
    assert(feed_spec(st, nl.drop_last()) == st);
    assert(feed_spec(st, nl) == byte_spec(st, 10u8));
    assert(byte_spec(st, 10u8) == line_spec(cleared, st.buffer));
}

/// Blank lines in a row dispatch at most one event: the second finds no name
/// and no data left to dispatch.
pub proof fn lemma_second_blank_line_dispatches_nothing(st: ParserModel)
    requires
        st.buffer.len() == 0,
    ensures
        feed_spec(st, seq![10u8, 10u8]) == feed_spec(st, seq![10u8]),
{
    lemma_feed_chunking(st, seq![10u8], seq![10u8]);
    assert(seq![10u8] + seq![10u8] =~= seq![10u8, 10u8]);
    lemma_blank_line_ends_event(st);
    let after = feed_spec(st, seq![10u8]);
    lemma_blank_line_ends_event(after);
    let again = feed_spec(after, seq![10u8]);
    assert(again.pending == after.pending);
    assert(after.data =~= again.data);
    assert(after.buffer =~= again.buffer);
}

/// What each field line does to the event under construction: `event` names
/// it, `data` adds a line to its data (joined with `\n` to what came before),
/// `id` sets its id, `retry` sets its retry when the value reads as a number;
/// a field of any other name changes nothing. No field touches the finished
/// events or the partial line.
pub proof fn lemma_field_effects(st: ParserModel, field: Seq<char>, value: Seq<char>)
    ensures
        apply_field(st, field, value).pending == st.pending,
        apply_field(st, field, value).buffer == st.buffer,
        field == seq!['e', 'v', 'e', 'n', 't'] ==> apply_field(st, field, value) == (ParserModel { event: Some(value), ..st }),
        field == seq!['d', 'a', 't', 'a'] ==> ({
            let after = apply_field(st, field, value);
            &&& after.saw_data
            &&& after.data == (if st.data.len() == 0 { value } else { st.data + seq!['\n'] + value })
            &&& after.event == st.event && after.id == st.id && after.retry == st.retry
        }),
        field == seq!['i', 'd'] ==> apply_field(st, field, value) == (ParserModel { id: Some(value), ..st }),
        field == seq!['r', 'e', 't', 'r', 'y'] ==> apply_field(st, field, value) == (match parse_u64_spec(trim_ws(value)) {
            Some(r) => ParserModel { retry: Some(r), ..st },
            None => st,
        }),
        (field != seq!['e', 'v', 'e', 'n', 't'] && field != seq!['d', 'a', 't', 'a'] && field != seq!['i', 'd']
            && field != seq!['r', 'e', 't', 'r', 'y']) ==> apply_field(st, field, value) == st,
{
    if field == seq!['d', 'a', 't', 'a'] && st.data.len() > 0 {
        assert(st.data.push('\n') =~= st.data + seq!['\n']);
    }
}

} // verus!

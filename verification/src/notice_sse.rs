//! The decisions of the notice-box SSE client: its settings and reconnect
//! backoff, how one line of the event stream is split off the bytes received
//! and read as a field, and what a finished event is dispatched as.
//!
//! The network loop itself (HTTP, timers, threads) drives these functions
//! from outside the library.

use vstd::prelude::*;
use vstd::arithmetic::power2::pow2;
use vstd::string::{StrSliceExecFns, StringExecFns};
use crate::notice_model::NoticeMessage;
use crate::sse::parser::{strip_cr, word_data, word_event, word_id};
use crate::text::{
    chars_of, find_first, first_at, from_utf8_lossy, join_lines, join_with, opt_text, prefix_is,
    str_is, strip_one_space, texts, trim_end_str, trim_end_ws, trim_str, trim_ws, line_text,
};

verus! {

/// What the connection reports to the user interface.
#[derive(Debug)]
pub enum SseEvent {
    /// The connection is up.
    Connected { url: String },
    /// The connection ended (closed by the server or failed).
    Disconnected { reason: String },
    /// Reconnect attempt `attempt` follows after `next_attempt_in` milliseconds.
    Reconnecting { attempt: u32, next_attempt_in: u64 },
    /// A heartbeat arrived: the connection is alive.
    Ping,
    /// A notification (`event: notice` with JSON data).
    Notice(NoticeMessage),
    /// Any other event, passed on as it came.
    Raw { event: Option<String>, id: Option<String>, data: String },
    /// An error (HTTP status, unreadable data, ...).
    Error { message: String },
}

/// Settings of the SSE connection. Durations are in milliseconds.
#[derive(Debug, Clone)]
pub struct SseClient {
    url: String,
    headers: Vec<(String, String)>,
    initial_backoff: u64,
    max_backoff: u64,
    heartbeat_timeout: u64,
}

/// The least backoff step, in milliseconds.
pub open spec fn floor_ms(ms: u64) -> nat {
    if ms < 100 {
        100
    } else {
        ms as nat
    }
}

/// The wait before reconnect attempt `attempt`: the initial wait doubled for
/// every attempt after the first (at most 16 doublings, saturating at
/// `u64::MAX`), capped by the maximum; both bounds are at least 100 ms.
pub open spec fn backoff_spec(initial: u64, max: u64, attempt: u32) -> nat {
    let shift: nat = if attempt == 0 {
        0
    } else if attempt - 1 > 16 {
        16
    } else {
        (attempt - 1) as nat
    };
    let raw = floor_ms(initial) * pow2(shift);
    let sat = if raw > u64::MAX { u64::MAX as nat } else { raw };
    if sat < floor_ms(max) {
        sat
    } else {
        floor_ms(max)
    }
}

/// Header names and values as texts.
pub open spec fn header_texts(v: Seq<(String, String)>) -> Seq<(Seq<char>, Seq<char>)> {
    v.map_values(|p: (String, String)| (p.0@, p.1@))
}

pub open spec fn last_event_id_name() -> Seq<char> {
    seq!['L', 'a', 's', 't', '-', 'E', 'v', 'e', 'n', 't', '-', 'I', 'D']
}

/// The headers every stream request carries.
pub open spec fn standard_headers() -> Seq<(Seq<char>, Seq<char>)> {
    seq![
        (seq!['A', 'c', 'c', 'e', 'p', 't'], seq!['t', 'e', 'x', 't', '/', 'e', 'v', 'e', 'n', 't', '-', 's', 't', 'r', 'e', 'a', 'm']),
        (seq!['C', 'a', 'c', 'h', 'e', '-', 'C', 'o', 'n', 't', 'r', 'o', 'l'], seq!['n', 'o', '-', 'c', 'a', 'c', 'h', 'e']),
        (seq!['C', 'o', 'n', 'n', 'e', 'c', 't', 'i', 'o', 'n'], seq!['k', 'e', 'e', 'p', '-', 'a', 'l', 'i', 'v', 'e']),
        (seq!['U', 's', 'e', 'r', '-', 'A', 'g', 'e', 'n', 't'], seq!['m', 'y', '-', 'n', 'o', 't', 'i', 'c', 'e', '-', 'a', 'p', 'p', '/', '0', '.', '1', '.', '0']),
    ]
}

impl SseClient {
    /// A client of the given endpoint: first wait 1 s, at most 30 s, heartbeat
    /// timeout 45 s, no extra headers.
    pub fn new(url: &str) -> (c: Self)
        ensures
            c.url()@ == url@,
            c.headers()@.len() == 0,
            c.initial_backoff() == 1000,
            c.max_backoff() == 30000,
            c.heartbeat_timeout() == 45000,
    {
        SseClient {
            url: url.to_owned(),
            headers: Vec::new(),
            initial_backoff: 1000,
            max_backoff: 30000,
            heartbeat_timeout: 45000,
        }
    }

    pub closed spec fn url(&self) -> String {
        self.url
    }

    pub closed spec fn headers(&self) -> Vec<(String, String)> {
        self.headers
    }

    pub closed spec fn initial_backoff(&self) -> u64 {
        self.initial_backoff
    }

    pub closed spec fn max_backoff(&self) -> u64 {
        self.max_backoff
    }

    pub closed spec fn heartbeat_timeout(&self) -> u64 {
        self.heartbeat_timeout
    }

    /// The endpoint.
    pub fn endpoint(&self) -> (r: &str)
        ensures
            r@ == self.url()@,
    {
        self.url.as_str()
    }

    /// The extra request headers, in the order they were added.
    pub fn header_list(&self) -> (r: &Vec<(String, String)>)
        ensures
            *r == self.headers(),
    {
        &self.headers
    }

    /// The headers of the stream request: `Accept`, `Cache-Control`,
    /// `Connection` and `User-Agent`, then the extra headers in the order they
    /// were added, then `Last-Event-ID` when an event id was seen.
    pub fn request_headers(&self, last_event_id: Option<&str>) -> (h: Vec<(String, String)>)
        ensures
            header_texts(h@) == standard_headers() + header_texts(self.headers()@) + match last_event_id {
                Some(id) => seq![(last_event_id_name(), id@)],
                None => Seq::empty(),
            },
    {
        proof {
            reveal_strlit("Accept");
            reveal_strlit("text/event-stream");
            reveal_strlit("Cache-Control");
            reveal_strlit("no-cache");
            reveal_strlit("Connection");
            reveal_strlit("keep-alive");
            reveal_strlit("User-Agent");
            reveal_strlit("my-notice-app/0.1.0");
            reveal_strlit("Last-Event-ID");
        }
        let mut h: Vec<(String, String)> = Vec::new();
        h.push((String::from_str("Accept"), String::from_str("text/event-stream")));
        h.push((String::from_str("Cache-Control"), String::from_str("no-cache")));
        h.push((String::from_str("Connection"), String::from_str("keep-alive")));
        h.push((String::from_str("User-Agent"), String::from_str("my-notice-app/0.1.0")));
        assert(header_texts(h@) =~~= standard_headers());
        let n = self.headers.len();
        let mut i: usize = 0;
        while i < n
            invariant
                n == self.headers@.len(),
                i <= n,
                header_texts(h@) == standard_headers() + header_texts(self.headers@.take(i as int)),
            decreases n - i,
        {
            let ghost before = h@;
            let name = self.headers[i].0.clone();
            let value = self.headers[i].1.clone();
            assert(name@ == self.headers@[i as int].0@ && value@ == self.headers@[i as int].1@);
            h.push((name, value));
            assert(header_texts(h@) =~~= header_texts(before).push((self.headers@[i as int].0@, self.headers@[i as int].1@)));
            assert(header_texts(self.headers@.take(i + 1)) =~~= header_texts(self.headers@.take(i as int)).push(
                (self.headers@[i as int].0@, self.headers@[i as int].1@),
            ));
            assert(header_texts(h@) =~~= standard_headers() + header_texts(self.headers@.take(i + 1)));
            i = i + 1;
        }
        assert(self.headers@.take(n as int) =~~= self.headers@);
        match last_event_id {
            Some(id) => {
                let ghost before = h@;
                h.push((String::from_str("Last-Event-ID"), id.to_owned()));
                assert(header_texts(h@) =~~= header_texts(before).push((last_event_id_name(), id@)));
            },
            None => {},
        }
        assert(header_texts(h@) =~~= standard_headers() + header_texts(self.headers()@) + match last_event_id {
            Some(id) => seq![(last_event_id_name(), id@)],
            None => Seq::<(Seq<char>, Seq<char>)>::empty(),
        });
        h
    }

    /// The heartbeat timeout (milliseconds).
    pub fn heartbeat(&self) -> (r: u64)
        ensures
            r == self.heartbeat_timeout(),
    {
        self.heartbeat_timeout
    }

    /// Adds a request header (such as an authorization token).
    pub fn with_header(self, name: &str, value: &str) -> (c: Self)
        ensures
            c.url() == self.url(),
            c.headers()@.len() == self.headers()@.len() + 1,
            forall|i: int| 0 <= i < self.headers()@.len() ==> c.headers()@[i] == self.headers()@[i],
            c.headers()@.last().0@ == name@,
            c.headers()@.last().1@ == value@,
            c.initial_backoff() == self.initial_backoff(),
            c.max_backoff() == self.max_backoff(),
            c.heartbeat_timeout() == self.heartbeat_timeout(),
    {
        let mut c = self;
        c.headers.push((name.to_owned(), value.to_owned()));
        c
    }

    /// Sets the first and the largest reconnect wait (milliseconds).
    pub fn with_backoff(self, initial: u64, max: u64) -> (c: Self)
        ensures
            c.url() == self.url(),
            c.headers() == self.headers(),
            c.initial_backoff() == initial,
            c.max_backoff() == max,
            c.heartbeat_timeout() == self.heartbeat_timeout(),
    {
        let mut c = self;
        c.initial_backoff = initial;
        c.max_backoff = max;
        c
    }

    /// Sets the heartbeat timeout (milliseconds).
    pub fn with_heartbeat_timeout(self, timeout: u64) -> (c: Self)
        ensures
            c.url() == self.url(),
            c.headers() == self.headers(),
            c.initial_backoff() == self.initial_backoff(),
            c.max_backoff() == self.max_backoff(),
            c.heartbeat_timeout() == timeout,
    {
        let mut c = self;
        c.heartbeat_timeout = timeout;
        c
    }

    /// Exponential backoff: `initial * 2^(attempt-1)` milliseconds, capped by the maximum.
    pub fn backoff_for(&self, attempt: u32) -> (ms: u64)
        ensures
            ms == backoff_spec(self.initial_backoff(), self.max_backoff(), attempt),
    {
        let base: u64 = if self.initial_backoff < 100 { 100 } else { self.initial_backoff };
        let a1: u32 = attempt.saturating_sub(1);
        let shift: u32 = if a1 > 16 { 16 } else { a1 };
        let mut factor: u64 = 1;
        let mut k: u32 = 0;
        proof {
            vstd::arithmetic::power2::lemma2_to64();
        }
        while k < shift
            invariant
                k <= shift <= 16,
                factor == pow2(k as nat),
            decreases shift - k,
        {
            proof {
                vstd::arithmetic::power2::lemma_pow2_unfold((k + 1) as nat);
                vstd::arithmetic::power2::lemma_pow2_strictly_increases(k as nat, 16);
                vstd::arithmetic::power2::lemma2_to64();
            }
            factor = factor * 2;
            k = k + 1;
        }
        let raw: u64 = match base.checked_mul(factor) {
            Some(v) => v,
            None => u64::MAX,
        };
        let cap: u64 = if self.max_backoff < 100 { 100 } else { self.max_backoff };
        if raw < cap {
            raw
        } else {
            cap
        }
    }
}

/// Backoff never shrinks from one attempt to the next, and never exceeds the
/// largest wait (nor 100 ms when that is set lower).
pub proof fn lemma_backoff_monotone(initial: u64, max: u64, a: u32, b: u32)
    requires
        a <= b,
    ensures
        backoff_spec(initial, max, a) <= backoff_spec(initial, max, b),
        backoff_spec(initial, max, b) <= floor_ms(max),
{
    let sa: nat = if a == 0 { 0 } else if a - 1 > 16 { 16 } else { (a - 1) as nat };
    let sb: nat = if b == 0 { 0 } else if b - 1 > 16 { 16 } else { (b - 1) as nat };
    assert(sa <= sb);
    if sa < sb {
        vstd::arithmetic::power2::lemma_pow2_strictly_increases(sa, sb);
    }
    vstd::arithmetic::mul::lemma_mul_inequality(pow2(sa) as int, pow2(sb) as int, floor_ms(initial) as int);
    vstd::arithmetic::mul::lemma_mul_is_commutative(pow2(sa) as int, floor_ms(initial) as int);
    vstd::arithmetic::mul::lemma_mul_is_commutative(pow2(sb) as int, floor_ms(initial) as int);
}

/// A field line split as this client reads it: name before the first `:`
/// (white space trimmed), value after it less one leading space and trailing
/// white space; a line without `:` is a trimmed name with an empty value.
pub open spec fn field_parts(text: Seq<char>) -> (Seq<char>, Seq<char>) {
    if exists|i: int| first_at(text, ':', i) {
        let i = choose|i: int| first_at(text, ':', i);
        (
            trim_ws(text.subrange(0, i)),
            trim_end_ws(strip_one_space(text.subrange(i + 1, text.len() as int))),
        )
    } else {
        (trim_ws(text), Seq::empty())
    }
}

/// The state of the event being read: data lines, name, id.
pub struct FieldState {
    pub data: Seq<Seq<char>>,
    pub event: Option<Seq<char>>,
    pub id: Option<Seq<char>>,
}

/// The effect of one field line on the event being read. `data` adds a line,
/// `event` names the event, `id` sets the id unless the value holds a NUL;
/// `retry` and unknown fields change nothing.
pub open spec fn field_effect(st: FieldState, line: Seq<u8>) -> FieldState {
    let parts = field_parts(line_text(line));
    if parts.0 == word_data() {
        FieldState { data: st.data.push(parts.1), ..st }
    } else if parts.0 == word_event() {
        FieldState { event: Some(parts.1), ..st }
    } else if parts.0 == word_id() && !parts.1.contains('\0') {
        FieldState { id: Some(parts.1), ..st }
    } else {
        st
    }
}


/// Reads one SSE field line (`field: value`) into the event being read.
pub fn parse_field(
    line: &[u8],
    data_lines: &mut Vec<String>,
    event: &mut Option<String>,
    id: &mut Option<String>,
)
    ensures
        field_effect(
            FieldState { data: texts(old(data_lines)@), event: opt_text(*old(event)), id: opt_text(*old(id)) },
            line@,
        ) == (FieldState {
            data: texts(final(data_lines)@),
            event: opt_text(*final(event)),
            id: opt_text(*final(id)),
        }),
{
    let text = from_utf8_lossy(line);
    let chars = chars_of(text.as_str());
    let len = chars.len();
    let idx = find_first(&chars, ':');
    let ghost parts = field_parts(text@);
    let field_raw: &str;
    let value_raw: &str;
    if idx < len {
        proof {
            let c = choose|c: int| first_at(text@, ':', c);
            crate::text::lemma_first_at_unique(text@, ':', c, idx as int);
        }
        field_raw = text.as_str().substring_char(0, idx);
        let mut vstart = idx + 1;
        if vstart < len && chars[vstart] == ' ' {
            vstart = vstart + 1;
        }
        value_raw = text.as_str().substring_char(vstart, len);
        assert(value_raw@ =~= strip_one_space(text@.subrange(idx + 1, len as int)));
    } else {
        field_raw = text.as_str();
        value_raw = "";
        proof {
            reveal_strlit("");
        }
    }
    let field = trim_str(field_raw);
    let value = if idx < len { trim_end_str(value_raw) } else { value_raw };
    assert(field@ == parts.0);
    assert(value@ =~= parts.1);
    if str_is(field, &vec!['d', 'a', 't', 'a']) {
        data_lines.push(value.to_owned());
        assert(texts(data_lines@) =~= texts(old(data_lines)@).push(value@));
    } else if str_is(field, &vec!['e', 'v', 'e', 'n', 't']) {
        *event = Some(value.to_owned());
    } else if str_is(field, &vec!['i', 'd']) {
        let vchars = chars_of(value);
        let nul = find_first(&vchars, '\0');
        if nul == vchars.len() {
            *id = Some(value.to_owned());
        } else {
            assert(value@[nul as int] == '\0');
            assert(value@.contains('\0'));
        }
    }
}

/// What a finished event becomes.
#[derive(Debug)]
pub enum Dispatched {
    /// An `event: notice`: the payload is to be read as a message; should it
    /// not read, the event goes on as `Raw` with the name and id given here.
    Notice { event: Option<String>, id: Option<String>, payload: String },
    /// An `event: ping` or `event: hello`.
    Ping,
    /// Any other event.
    Raw { event: Option<String>, id: Option<String>, data: String },
}

pub open spec fn word_notice() -> Seq<char> {
    seq!['n', 'o', 't', 'i', 'c', 'e']
}

pub open spec fn word_ping() -> Seq<char> {
    seq!['p', 'i', 'n', 'g']
}

pub open spec fn word_hello() -> Seq<char> {
    seq!['h', 'e', 'l', 'l', 'o']
}

/// The dispatch that an event with this name, id and payload calls for.
pub open spec fn dispatch_spec(event: Option<Seq<char>>, id: Option<Seq<char>>, payload: Seq<char>, d: Dispatched) -> bool {
    if event == Some(word_notice()) {
        d matches Dispatched::Notice { event: e, id: i, payload: p } && opt_text(e) == event && opt_text(i) == id && p@ == payload
    } else if event == Some(word_ping()) || event == Some(word_hello()) {
        d is Ping
    } else {
        d matches Dispatched::Raw { event: e, id: i, data: p } && opt_text(e) == event && opt_text(i) == id && p@ == payload
    }
}

/// A blank line ends the event. The event state starts over; an event whose
/// joined data is empty is dropped, any other one updates the last event id
/// (when it carried one) and is dispatched by its name.
pub fn dispatch_event(
    data_lines: &mut Vec<String>,
    event: &mut Option<String>,
    id: &mut Option<String>,
    last_event_id: &mut Option<String>,
) -> (r: Option<Dispatched>)
    ensures
        final(data_lines)@.len() == 0,
        *final(event) is None,
        *final(id) is None,
        ({
            let payload = join_with(texts(old(data_lines)@), seq!['\n']);
            if payload.len() == 0 {
                &&& r is None
                &&& *final(last_event_id) == *old(last_event_id)
            } else {
                &&& opt_text(*final(last_event_id)) == (if *old(id) is Some { opt_text(*old(id)) } else { opt_text(*old(last_event_id)) })
                &&& r matches Some(d) && dispatch_spec(opt_text(*old(event)), opt_text(*old(id)), payload, d)
            }
        }),
{
    let event_name = event.take();
    let event_id = id.take();
    let payload = join_lines(data_lines);
    data_lines.clear();
    if payload.unicode_len() == 0 {
        return None;
    }
    match &event_id {
        Some(ev) => {
            *last_event_id = Some(ev.clone());
        },
        None => {},
    }
    let kind: u8 = match &event_name {
        Some(name) => {
            if str_is(name.as_str(), &vec!['n', 'o', 't', 'i', 'c', 'e']) {
                0
            } else if str_is(name.as_str(), &vec!['p', 'i', 'n', 'g']) || str_is(name.as_str(), &vec!['h', 'e', 'l', 'l', 'o']) {
                1
            } else {
                2
            }
        },
        None => 2,
    };
    if kind == 0 {
        Some(Dispatched::Notice { event: event_name, id: event_id, payload })
    } else if kind == 1 {
        Some(Dispatched::Ping)
    } else {
        Some(Dispatched::Raw { event: event_name, id: event_id, data: payload })
    }
}

/// Splits the next complete line off the front of `buffer`: the bytes before
/// the first `\n`, less one trailing `\r`. `None` (buffer unchanged) when no
/// line is complete yet.
pub fn next_line(buffer: &mut Vec<u8>) -> (r: Option<Vec<u8>>)
    ensures
        match r {
            Some(line) => exists|pos: int| {
                &&& 0 <= pos < old(buffer)@.len()
                &&& old(buffer)@[pos] == 10u8
                &&& forall|j: int| 0 <= j < pos ==> old(buffer)@[j] != 10u8
                &&& line@ == strip_cr(old(buffer)@.subrange(0, pos))
                &&& final(buffer)@ == old(buffer)@.subrange(pos + 1, old(buffer)@.len() as int)
            },
            None => {
                &&& !old(buffer)@.contains(10u8)
                &&& final(buffer)@ == old(buffer)@
            },
        },
{
    let len = buffer.len();
    let mut pos: usize = 0;
    while pos < len && buffer[pos] != 10u8
        invariant
            len == buffer@.len(),
            pos <= len,
            forall|j: int| 0 <= j < pos ==> buffer@[j] != 10u8,
        decreases len - pos,
    {
        pos = pos + 1;
    }
    if pos == len {
        return None;
    }
    let mut line = buffer.split_off(pos + 1);
    std::mem::swap(&mut line, buffer);
    line.pop();
    let n = line.len();
    if n > 0 && line[n - 1] == 13u8 {
        line.pop();
    }
    Some(line)
}

/// At the end of the stream, what is left in the buffer is the last line
/// (less one trailing `\r`); nothing is left when it was empty.
pub fn end_of_stream_line(buffer: &mut Vec<u8>) -> (r: Option<Vec<u8>>)
    ensures
        final(buffer)@.len() == 0,
        old(buffer)@.len() == 0 ==> r is None,
        old(buffer)@.len() > 0 ==> (r matches Some(tail) && tail@ == strip_cr(old(buffer)@)),
{
    if buffer.len() == 0 {
        return None;
    }
    let mut tail: Vec<u8> = Vec::new();
    std::mem::swap(&mut tail, buffer);
    let n = tail.len();
    if n > 0 && tail[n - 1] == 13u8 {
        tail.pop();
    }
    Some(tail)
}


/// The event being read from the stream, and the id of the last event that
/// was dispatched (sent again as `Last-Event-ID` on reconnect).
#[derive(Debug)]
pub struct ReaderState {
    pub data_lines: Vec<String>,
    pub event: Option<String>,
    pub id: Option<String>,
    pub last_event_id: Option<String>,
}

impl ReaderState {
    /// Nothing read yet.
    pub fn new() -> (st: Self)
        ensures
            st.data_lines@.len() == 0,
            st.event is None,
            st.id is None,
            st.last_event_id is None,
    {
        ReaderState { data_lines: Vec::new(), event: None, id: None, last_event_id: None }
    }
}

/// What a line of the stream calls for.
#[derive(Debug)]
pub enum LineOutcome {
    /// Nothing to report (a field was read, or an empty event dropped).
    Nothing,
    /// A comment line: a heartbeat.
    Ping,
    /// A blank line ended an event.
    Event(Dispatched),
}

/// Reads one line of the stream: a blank line ends the event (see
/// [`dispatch_event`]), a line starting with `:` is a heartbeat comment, any
/// other line is a field (see [`parse_field`]).
pub fn read_line_event(line: &[u8], st: &mut ReaderState) -> (r: LineOutcome)
    ensures
        line@.len() == 0 ==> ({
            let payload = join_with(texts(old(st).data_lines@), seq!['\n']);
            &&& final(st).data_lines@.len() == 0
            &&& final(st).event is None
            &&& final(st).id is None
            &&& if payload.len() == 0 {
                &&& r is Nothing
                &&& final(st).last_event_id == old(st).last_event_id
            } else {
                &&& opt_text(final(st).last_event_id) == (if old(st).id is Some {
                    opt_text(old(st).id)
                } else {
                    opt_text(old(st).last_event_id)
                })
                &&& r matches LineOutcome::Event(d) && dispatch_spec(opt_text(old(st).event), opt_text(old(st).id), payload, d)
            }
        }),
        line@.len() > 0 && line@[0] == 58u8 ==> r is Ping && *final(st) == *old(st),
        line@.len() > 0 && line@[0] != 58u8 ==> {
            &&& r is Nothing
            &&& final(st).last_event_id == old(st).last_event_id
            &&& field_effect(
                FieldState { data: texts(old(st).data_lines@), event: opt_text(old(st).event), id: opt_text(old(st).id) },
                line@,
            ) == (FieldState {
                data: texts(final(st).data_lines@),
                event: opt_text(final(st).event),
                id: opt_text(final(st).id),
            })
        },
{
    if line.len() == 0 {
        match dispatch_event(&mut st.data_lines, &mut st.event, &mut st.id, &mut st.last_event_id) {
            Some(d) => LineOutcome::Event(d),
            None => LineOutcome::Nothing,
        }
    } else if line[0] == 58u8 {
        LineOutcome::Ping
    } else {
        parse_field(line, &mut st.data_lines, &mut st.event, &mut st.id);
        LineOutcome::Nothing
    }
}

/// How an event is dispatched by its name: `ping` and `hello` are
/// heartbeats; `notice` hands its payload on to be read as a message; any
/// other name, or none, goes on raw with its name, id and data. Whatever is
/// not a heartbeat keeps the payload.
pub proof fn lemma_dispatch_by_name(event: Option<Seq<char>>, id: Option<Seq<char>>, payload: Seq<char>, d: Dispatched)
    requires
        dispatch_spec(event, id, payload, d),
    ensures
        event == Some(seq!['p', 'i', 'n', 'g']) ==> d is Ping,
        event == Some(seq!['h', 'e', 'l', 'l', 'o']) ==> d is Ping,
        event == Some(seq!['n', 'o', 't', 'i', 'c', 'e']) ==> (d matches Dispatched::Notice { payload: p, .. } && p@ == payload),
        d is Ping ==> (event == Some(seq!['p', 'i', 'n', 'g']) || event == Some(seq!['h', 'e', 'l', 'l', 'o'])),
        (event != Some(seq!['p', 'i', 'n', 'g']) && event != Some(seq!['h', 'e', 'l', 'l', 'o']) && event
            != Some(seq!['n', 'o', 't', 'i', 'c', 'e'])) ==> (d matches Dispatched::Raw { event: e, id: i, data: p }
            && opt_text(e) == event && opt_text(i) == id && p@ == payload),
{
}

} // verus!

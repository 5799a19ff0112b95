//! The notification model of the notification app and the SSE event
//! envelope: which event a frame (`event:` name with JSON `data:`) stands for.
//!
//! JSON is read into [`Json`], a plain value; reading a notification's JSON
//! into a [`Notification`] with `serde` happens outside the library.

use vstd::prelude::*;
use vstd::string::{StrSliceExecFns, StringExecFns};
use crate::fmt::{decimal_i64, decimal_text};
use crate::text::{chars_of, str_is, trim_str, trim_ws};

verus! {

/// Notification level (icon and colour of the card).
#[derive(Debug, Clone, Copy, PartialEq, Eq, Structural)]
pub enum NotificationLevel {
    Info,
    Success,
    Warning,
    Error,
}

impl Default for NotificationLevel {
    fn default() -> (l: Self)
        ensures
            l == NotificationLevel::Info,
    {
        NotificationLevel::Info
    }
}

/// ASCII letters lower-cased, every other character kept.
pub open spec fn ascii_lower(s: Seq<char>) -> Seq<char> {
    s.map_values(|c: char| if 'A' as u32 <= c as u32 <= 'Z' as u32 { ((c as u32) + 32) as char } else { c })
}

/// The text with ASCII upper-case letters lower-cased, every other character
/// kept.
fn to_ascii_lower(s: &str) -> (r: String)
    ensures
        r@ == ascii_lower(s@),
{
    let chars = chars_of(s);
    let n = chars.len();
    let mut r = String::new();
    let mut i: usize = 0;
    while i < n
        invariant
            n == chars@.len(),
            chars@ == s@,
            i <= n,
            r@ == ascii_lower(s@).take(i as int),
        decreases n - i,
    {
        let c = chars[i];
        let u = c as u32;
        let d = if 65 <= u && u <= 90 { ((u as u8) + 32) as char } else { c };
        assert(d == ascii_lower(s@)[i as int]);
        crate::fmt::push_char(&mut r, d);
        assert(ascii_lower(s@).take(i + 1) =~= ascii_lower(s@).take(i as int).push(d));
        i = i + 1;
    }
    assert(ascii_lower(s@).take(n as int) =~= ascii_lower(s@));
    r
}

/// The level a name denotes, read leniently: white space trimmed, ASCII case
/// ignored, a few synonyms accepted; anything else is `Info`.
pub open spec fn level_of(name: Seq<char>) -> NotificationLevel {
    let n = ascii_lower(trim_ws(name));
    if n == seq!['s', 'u', 'c', 'c', 'e', 's', 's'] || n == seq!['o', 'k'] || n == seq!['d', 'o', 'n', 'e'] {
        NotificationLevel::Success
    } else if n == seq!['w', 'a', 'r', 'n', 'i', 'n', 'g'] || n == seq!['w', 'a', 'r', 'n'] {
        NotificationLevel::Warning
    } else if n == seq!['e', 'r', 'r', 'o', 'r'] || n == seq!['f', 'a', 'i', 'l'] || n == seq!['f', 'a', 'i', 'l', 'e', 'd'] {
        NotificationLevel::Error
    } else {
        NotificationLevel::Info
    }
}

impl NotificationLevel {
    /// Reads a level leniently; unknown names give `Info`.
    pub fn parse(value: &str) -> (l: Self)
        ensures
            l == level_of(value@),
    {
        let n = to_ascii_lower(trim_str(value));
        let s = n.as_str();
        if str_is(s, &vec!['s', 'u', 'c', 'c', 'e', 's', 's']) || str_is(s, &vec!['o', 'k']) || str_is(s, &vec!['d', 'o', 'n', 'e']) {
            NotificationLevel::Success
        } else if str_is(s, &vec!['w', 'a', 'r', 'n', 'i', 'n', 'g']) || str_is(s, &vec!['w', 'a', 'r', 'n']) {
            NotificationLevel::Warning
        } else if str_is(s, &vec!['e', 'r', 'r', 'o', 'r']) || str_is(s, &vec!['f', 'a', 'i', 'l']) || str_is(s, &vec!['f', 'a', 'i', 'l', 'e', 'd']) {
            NotificationLevel::Error
        } else {
            NotificationLevel::Info
        }
    }
}

/// A JSON value. Numbers are told apart as `serde_json` reads them:
/// non-negative integers, negative integers, and other numbers as the text
/// `serde_json` writes for them.
#[derive(Debug, PartialEq)]
pub enum Json {
    Null,
    Bool(bool),
    /// A non-negative integer.
    UInt(u64),
    /// A negative integer.
    Int(i64),
    /// Any other number (a fraction, an exponent, or an integer beyond
    /// `u64`/`i64`), as the text `serde_json` writes for it.
    Float(String),
    Str(String),
    Array(Vec<Json>),
    /// Members in order; a key occurs once.
    Object(Vec<(String, Json)>),
}

/// `i` is the first member of key `key`.
pub open spec fn first_key_at(es: Seq<(String, Json)>, key: Seq<char>, i: int) -> bool {
    &&& 0 <= i < es.len()
    &&& es[i].0@ == key
    &&& forall|j: int| 0 <= j < i ==> es[j].0@ != key
}

/// The member of key `key` of an object; `None` for a missing key or a value
/// that is no object.
pub open spec fn json_get(j: Json, key: Seq<char>) -> Option<Json> {
    match j {
        Json::Object(es) => if exists|i: int| first_key_at(es@, key, i) {
            Some(es@[choose|i: int| first_key_at(es@, key, i)].1)
        } else {
            None
        },
        _ => None,
    }
}

pub open spec fn json_str(j: Json) -> Option<Seq<char>> {
    match j {
        Json::Str(s) => Some(s@),
        _ => None,
    }
}

/// The integer a JSON number is when it fits an `i64`.
pub open spec fn json_i64(j: Json) -> Option<i64> {
    match j {
        Json::Int(i) => Some(i),
        Json::UInt(u) => if u <= i64::MAX as u64 { Some(u as i64) } else { None },
        _ => None,
    }
}

proof fn lemma_first_key_unique(es: Seq<(String, Json)>, key: Seq<char>, i: int, k: int)
    requires
        first_key_at(es, key, i),
        first_key_at(es, key, k),
    ensures
        i == k,
{
    if i < k {
        assert(es[i].0@ != key);
    } else if k < i {
        assert(es[k].0@ != key);
    }
}

/// The position of the first member of key `key`, or the length.
fn find_key(es: &Vec<(String, Json)>, key: &str) -> (i: usize)
    ensures
        i <= es@.len(),
        i < es@.len() ==> first_key_at(es@, key@, i as int),
        i == es@.len() ==> forall|k: int| !first_key_at(es@, key@, k),
{
    let k = String::from_str(key);
    let n = es.len();
    let mut i: usize = 0;
    while i < n && !(es[i].0 == k)
        invariant
            n == es@.len(),
            i <= n,
            k@ == key@,
            forall|j: int| 0 <= j < i ==> es@[j].0@ != key@,
        decreases n - i,
    {
        i = i + 1;
    }
    i
}

impl Json {
    /// The member of key `key`, when this is an object that has it.
    pub fn get(&self, key: &str) -> (r: Option<&Json>)
        ensures
            match r {
                Some(v) => json_get(*self, key@) == Some(*v),
                None => json_get(*self, key@) is None,
            },
    {
        match self {
            Json::Object(es) => {
                let i = find_key(es, key);
                if i < es.len() {
                    proof {
                        let c = choose|c: int| first_key_at(es@, key@, c);
                        lemma_first_key_unique(es@, key@, c, i as int);
                    }
                    Some(&es[i].1)
                } else {
                    None
                }
            },
            _ => None,
        }
    }

    /// The text, when this is a string.
    pub fn as_str(&self) -> (r: Option<&str>)
        ensures
            match r {
                Some(s) => json_str(*self) == Some(s@),
                None => json_str(*self) is None,
            },
    {
        match self {
            Json::Str(s) => Some(s.as_str()),
            _ => None,
        }
    }

    /// The integer, when this is a number that fits an `i64`.
    pub fn as_i64(&self) -> (r: Option<i64>)
        ensures
            r == json_i64(*self),
    {
        match self {
            Json::Int(i) => Some(*i),
            Json::UInt(u) => if *u <= i64::MAX as u64 { Some(*u as i64) } else { None },
            _ => None,
        }
    }
}

/// The value that `serde_json` reads from a text, when the text is JSON.
pub uninterp spec fn json_parse(text: Seq<char>) -> Option<Json>;

/// The compact text that `serde_json` writes for a value.
pub uninterp spec fn json_text(j: Json) -> Seq<char>;

/// Calls `serde_json::from_str::<serde_json::Value>` and converts the value
/// with [`json_from_value`]. Claimed: success exactly when the name
/// `json_parse` gives a value, and then that value; the error is
/// `serde_json`'s message.
#[verifier::external_body]
fn parse_json(text: &str) -> (r: Result<Json, String>)
    ensures
        match r {
            Ok(j) => json_parse(text@) == Some(j),
            Err(_) => json_parse(text@) is None,
        },
{
    serde_json::from_str::<serde_json::Value>(text).map(|v| json_from_value(v, 256)).map_err(|e| e.to_string())
}

/// One level of a `serde_json::Value`: its kind with the values inside it.
pub enum ValueNode {
    Null,
    Bool(bool),
    UInt(u64),
    Int(i64),
    Float(String),
    Str(String),
    Array(Vec<serde_json::Value>),
    Object(Vec<(String, serde_json::Value)>),
}

/// Opens one level of a `serde_json::Value` (its number kinds told apart by
/// `as_u64` and `as_i64`, other numbers kept as their text). Nothing is
/// claimed: the value is opaque here.
#[verifier::external_body]
fn value_node(v: serde_json::Value) -> ValueNode {
    match v {
        serde_json::Value::Null => ValueNode::Null,
        serde_json::Value::Bool(b) => ValueNode::Bool(b),
        serde_json::Value::Number(n) => match (n.as_u64(), n.as_i64()) {
            (Some(u), _) => ValueNode::UInt(u),
            (None, Some(i)) => ValueNode::Int(i),
            (None, None) => ValueNode::Float(n.to_string()),
        },
        serde_json::Value::String(s) => ValueNode::Str(s),
        serde_json::Value::Array(a) => ValueNode::Array(a),
        serde_json::Value::Object(m) => ValueNode::Object(m.into_iter().collect()),
    }
}

/// Builds one level of a `serde_json::Value` (a number text that does not
/// read as a number becomes `null`). Nothing is claimed: the value is opaque here.
#[verifier::external_body]
fn node_value(n: ValueNode) -> serde_json::Value {
    match n {
        ValueNode::Null => serde_json::Value::Null,
        ValueNode::Bool(b) => serde_json::Value::Bool(b),
        ValueNode::UInt(u) => serde_json::Value::from(u),
        ValueNode::Int(i) => serde_json::Value::from(i),
        ValueNode::Float(t) => t.parse::<serde_json::Number>().map(serde_json::Value::Number).unwrap_or(serde_json::Value::Null),
        ValueNode::Str(s) => serde_json::Value::String(s),
        ValueNode::Array(a) => serde_json::Value::Array(a),
        ValueNode::Object(m) => serde_json::Value::Object(m.into_iter().collect()),
    }
}

/// `j` nests arrays and objects at most `d` levels deep: at depth zero only
/// empty ones are left.
pub open spec fn json_nests_within(j: Json, d: nat) -> bool
    decreases d,
{
    match j {
        Json::Array(a) => a@.len() == 0 || (d > 0 && forall|i: int|
            0 <= i < a@.len() ==> json_nests_within(#[trigger] a@[i], (d - 1) as nat)),
        Json::Object(m) => m@.len() == 0 || (d > 0 && forall|i: int|
            0 <= i < m@.len() ==> json_nests_within(#[trigger] m@[i].1, (d - 1) as nat)),
        _ => true,
    }
}

/// A `serde_json::Value` as a [`Json`], down to `depth` levels of nesting
/// (deeper arrays and objects are left empty; `serde_json` does not read
/// nesting beyond 128 levels).
pub fn json_from_value(v: serde_json::Value, depth: u32) -> (j: Json)
    ensures
        json_nests_within(j, depth as nat),
    decreases depth,
{
    match value_node(v) {
        ValueNode::Null => Json::Null,
        ValueNode::Bool(b) => Json::Bool(b),
        ValueNode::UInt(u) => Json::UInt(u),
        ValueNode::Int(i) => Json::Int(i),
        ValueNode::Float(t) => Json::Float(t),
        ValueNode::Str(s) => Json::Str(s),
        ValueNode::Array(items) => {
            let mut out: Vec<Json> = Vec::new();
            if depth > 0 {
                for item in items
                    invariant
                        depth > 0,
                        forall|i: int| 0 <= i < out@.len() ==> json_nests_within(#[trigger] out@[i], (depth - 1) as nat),
                {
                    out.push(json_from_value(item, depth - 1));
                }
            }
            Json::Array(out)
        },
        ValueNode::Object(members) => {
            let mut out: Vec<(String, Json)> = Vec::new();
            if depth > 0 {
                for member in members
                    invariant
                        depth > 0,
                        forall|i: int| 0 <= i < out@.len() ==> json_nests_within(#[trigger] out@[i].1, (depth - 1) as nat),
                {
                    let (k, x) = member;
                    out.push((k, json_from_value(x, depth - 1)));
                }
            }
            Json::Object(out)
        },
    }
}

/// A [`Json`] as a `serde_json::Value`.
pub fn value_from_json(j: &Json) -> serde_json::Value
    decreases j,
{
    let node = match j {
        Json::Null => ValueNode::Null,
        Json::Bool(b) => ValueNode::Bool(*b),
        Json::UInt(u) => ValueNode::UInt(*u),
        Json::Int(i) => ValueNode::Int(*i),
        Json::Float(t) => ValueNode::Float(t.clone()),
        Json::Str(s) => ValueNode::Str(s.clone()),
        Json::Array(items) => {
            let mut out: Vec<serde_json::Value> = Vec::new();
            let n = items.len();
            let mut i: usize = 0;
            while i < n
                invariant
                    n == items@.len(),
                    i <= n,
                    match *j {
                        Json::Array(v) => v == *items,
                        _ => false,
                    },
                decreases n - i,
            {
                assert(decreases_to!(*j => items@)) by {
                    assert(decreases_to!(*j => *items));
                }
                assert(decreases_to!(*j => items@[i as int]));
                out.push(value_from_json(&items[i]));
                i = i + 1;
            }
            ValueNode::Array(out)
        },
        Json::Object(members) => {
            let mut out: Vec<(String, serde_json::Value)> = Vec::new();
            let n = members.len();
            let mut i: usize = 0;
            while i < n
                invariant
                    n == members@.len(),
                    i <= n,
                    match *j {
                        Json::Object(v) => v == *members,
                        _ => false,
                    },
                decreases n - i,
            {
                assert(decreases_to!(*j => members@)) by {
                    assert(decreases_to!(*j => *members));
                }
                assert(decreases_to!(*j => members@[i as int]));
                assert(decreases_to!(*j => members@[i as int].1));
                let (k, x) = &members[i];
                out.push((k.clone(), value_from_json(x)));
                i = i + 1;
            }
            ValueNode::Object(out)
        },
    };
    node_value(node)
}

/// Calls `serde_json::Value::to_string` on the value of [`value_from_json`].
/// Claimed: the result is the name `json_text` of the value.
#[verifier::external_body]
fn write_json(j: &Json) -> (r: String)
    ensures
        r@ == json_text(*j),
{
    value_from_json(j).to_string()
}

#[verifier::external_type_specification]
#[verifier::external_body]
pub struct ExValue(serde_json::Value);

/// The SSE event envelope: what the server asks of the application.
#[derive(Debug, PartialEq)]
pub enum SseServerEvent {
    /// A new notification (event `notification`, or a bare notification
    /// without an event name): its JSON, which `serde` reads into a
    /// [`Notification`].
    Notification(Json),
    /// Mark one notification read (event `read`).
    Read { id: String },
    /// Mark every notification read (event `read_all`).
    ReadAll,
    /// Clear the list (event `clear`).
    Clear,
    /// The connection handshake (event `connected`).
    Connected { server_time: Option<String> },
    /// A heartbeat (event `ping`).
    Ping,
}

/// Why a frame could not be read.
#[derive(Debug, PartialEq)]
pub enum EventError {
    /// The data is not JSON (the parser's message).
    Json(String),
    /// A `read` event without an `id` or `notification_id`.
    MissingField,
    /// Neither a notification nor an `{ "event": ... }` envelope.
    Unsupported,
}

/// An event as a value of the specification.
pub enum EventModel {
    Notification(Json),
    Read(Seq<char>),
    ReadAll,
    Clear,
    Connected(Option<Seq<char>>),
    Ping,
}

/// An error as a value of the specification.
pub enum ErrorKind {
    Json,
    MissingField,
    Unsupported,
}

pub open spec fn event_model(e: SseServerEvent) -> EventModel {
    match e {
        SseServerEvent::Notification(j) => EventModel::Notification(j),
        SseServerEvent::Read { id } => EventModel::Read(id@),
        SseServerEvent::ReadAll => EventModel::ReadAll,
        SseServerEvent::Clear => EventModel::Clear,
        SseServerEvent::Connected { server_time } => EventModel::Connected(match server_time {
            Some(t) => Some(t@),
            None => None,
        }),
        SseServerEvent::Ping => EventModel::Ping,
    }
}

pub open spec fn error_kind(e: EventError) -> ErrorKind {
    match e {
        EventError::Json(_) => ErrorKind::Json,
        EventError::MissingField => ErrorKind::MissingField,
        EventError::Unsupported => ErrorKind::Unsupported,
    }
}

pub open spec fn outcome(r: Result<SseServerEvent, EventError>) -> Result<EventModel, ErrorKind> {
    match r {
        Ok(e) => Ok(event_model(e)),
        Err(e) => Err(error_kind(e)),
    }
}

pub open spec fn outcome_opt(r: Result<Option<SseServerEvent>, EventError>) -> Result<Option<EventModel>, ErrorKind> {
    match r {
        Ok(Some(e)) => Ok(Some(event_model(e))),
        Ok(None) => Ok(None),
        Err(e) => Err(error_kind(e)),
    }
}

pub open spec fn is_one_of(n: Seq<char>, words: Seq<Seq<char>>) -> bool {
    words.contains(n)
}

pub open spec fn names_notification() -> Seq<Seq<char>> {
    seq![seq!['n', 'o', 't', 'i', 'f', 'i', 'c', 'a', 't', 'i', 'o', 'n'], seq!['n', 'o', 't', 'i', 'c', 'e'], seq!['m', 'e', 's', 's', 'a', 'g', 'e']]
}

pub open spec fn names_read_all() -> Seq<Seq<char>> {
    seq![seq!['r', 'e', 'a', 'd', '_', 'a', 'l', 'l'], seq!['r', 'e', 'a', 'd', 'A', 'l', 'l']]
}

pub open spec fn names_clear() -> Seq<Seq<char>> {
    seq![seq!['c', 'l', 'e', 'a', 'r'], seq!['c', 'l', 'e', 'a', 'r', '_', 'a', 'l', 'l'], seq!['c', 'l', 'e', 'a', 'r', 'A', 'l', 'l']]
}

pub open spec fn names_connected() -> Seq<Seq<char>> {
    seq![seq!['c', 'o', 'n', 'n', 'e', 'c', 't', 'e', 'd'], seq!['r', 'e', 'a', 'd', 'y']]
}

pub open spec fn names_ping() -> Seq<Seq<char>> {
    seq![seq!['p', 'i', 'n', 'g'], seq!['h', 'e', 'a', 'r', 't', 'b', 'e', 'a', 't'], seq!['k', 'e', 'e', 'p', 'a', 'l', 'i', 'v', 'e']]
}

pub open spec fn word_read() -> Seq<char> {
    seq!['r', 'e', 'a', 'd']
}

pub open spec fn key_id() -> Seq<char> {
    seq!['i', 'd']
}

pub open spec fn key_notification_id() -> Seq<char> {
    seq!['n', 'o', 't', 'i', 'f', 'i', 'c', 'a', 't', 'i', 'o', 'n', '_', 'i', 'd']
}

/// A value read as an id: a string as it is, an integer in decimal, anything
/// else as its JSON text.
pub open spec fn id_text(v: Json) -> Seq<char> {
    match json_str(v) {
        Some(s) => s,
        None => match json_i64(v) {
            Some(i) => decimal_text(i as int),
            None => json_text(v),
        },
    }
}

/// The id of a `read` event: `id`, else `notification_id`.
pub open spec fn required_id_spec(j: Json) -> Result<Seq<char>, ErrorKind> {
    match json_get(j, key_id()) {
        Some(v) => Ok(id_text(v)),
        None => match json_get(j, key_notification_id()) {
            Some(v) => Ok(id_text(v)),
            None => Err(ErrorKind::MissingField),
        },
    }
}

/// The server time of a handshake: `server_time` when present (a string, else
/// none), else `time`.
pub open spec fn server_time_spec(j: Json) -> Option<Seq<char>> {
    match json_get(j, seq!['s', 'e', 'r', 'v', 'e', 'r', '_', 't', 'i', 'm', 'e']) {
        Some(v) => json_str(v),
        None => match json_get(j, seq!['t', 'i', 'm', 'e']) {
            Some(v) => json_str(v),
            None => None,
        },
    }
}

/// A notification payload has an `id` and a `message` or `title`.
pub open spec fn is_notification_payload_spec(j: Json) -> bool {
    json_get(j, key_id()) is Some && (json_get(j, seq!['m', 'e', 's', 's', 'a', 'g', 'e']) is Some
        || json_get(j, seq!['t', 'i', 't', 'l', 'e']) is Some)
}

/// The event a value stands for under the (trimmed) event name `name`.
pub open spec fn value_event_spec(name: Seq<char>, j: Json) -> Result<EventModel, ErrorKind>
    decreases j, 1int,
{
    if name.len() == 0 {
        default_event_spec(j)
    } else if is_one_of(name, names_notification()) {
        Ok(EventModel::Notification(j))
    } else if name == word_read() {
        match required_id_spec(j) {
            Ok(id) => Ok(EventModel::Read(id)),
            Err(e) => Err(e),
        }
    } else if is_one_of(name, names_read_all()) {
        Ok(EventModel::ReadAll)
    } else if is_one_of(name, names_clear()) {
        Ok(EventModel::Clear)
    } else if is_one_of(name, names_connected()) {
        Ok(EventModel::Connected(server_time_spec(j)))
    } else if is_one_of(name, names_ping()) {
        Ok(EventModel::Ping)
    } else {
        default_event_spec(j)
    }
}

/// A value without a known event name: a notification payload, else an
/// `{ "event": name, "data": value }` envelope read under that name (no
/// `data` is a heartbeat), else unsupported.
pub open spec fn default_event_spec(j: Json) -> Result<EventModel, ErrorKind>
    decreases j, 0int,
{
    if is_notification_payload_spec(j) {
        Ok(EventModel::Notification(j))
    } else {
        match json_get(j, seq!['e', 'v', 'e', 'n', 't']) {
            Some(ev) => match json_str(ev) {
                Some(name) => match j {
                    Json::Object(es) => if exists|i: int| first_key_at(es@, seq!['d', 'a', 't', 'a'], i) {
                        let i = choose|i: int| first_key_at(es@, seq!['d', 'a', 't', 'a'], i);
                        value_event_spec(trim_ws(name), es@[i].1)
                    } else {
                        Ok(EventModel::Ping)
                    },
                    _ => Err(ErrorKind::Unsupported),
                },
                None => Err(ErrorKind::Unsupported),
            },
            None => Err(ErrorKind::Unsupported),
        }
    }
}

/// What a frame stands for: the event name and the data are trimmed; empty
/// data is nothing; data that is not JSON is an error; else the value is read
/// under the name.
pub open spec fn parse_spec(event: Option<Seq<char>>, data: Seq<char>) -> Result<Option<EventModel>, ErrorKind> {
    let name = trim_ws(match event { Some(e) => e, None => Seq::empty() });
    let d = trim_ws(data);
    if d.len() == 0 {
        Ok(None)
    } else {
        match json_parse(d) {
            None => Err(ErrorKind::Json),
            Some(j) => match value_event_spec(name, j) {
                Ok(e) => Ok(Some(e)),
                Err(e) => Err(e),
            },
        }
    }
}

fn name_in(s: &str, words: &Vec<Vec<char>>) -> (r: bool)
    ensures
        r == words@.map_values(|w: Vec<char>| w@).contains(s@),
{
    let ghost ws = words@.map_values(|w: Vec<char>| w@);
    let n = words.len();
    let mut i: usize = 0;
    while i < n
        invariant
            n == words@.len(),
            ws == words@.map_values(|w: Vec<char>| w@),
            i <= n,
            forall|j: int| 0 <= j < i ==> ws[j] != s@,
        decreases n - i,
    {
        if str_is(s, &words[i]) {
            assert(ws[i as int] == s@);
            return true;
        }
        i = i + 1;
    }
    false
}

/// A value read as an id.
fn id_of(v: &Json) -> (s: String)
    ensures
        s@ == id_text(*v),
{
    match v.as_str() {
        Some(s) => s.to_owned(),
        None => match v.as_i64() {
            Some(i) => decimal_i64(i),
            None => write_json(v),
        },
    }
}

fn required_id(j: &Json) -> (r: Result<String, EventError>)
    ensures
        match r {
            Ok(s) => required_id_spec(*j) == Ok::<Seq<char>, ErrorKind>(s@),
            Err(e) => required_id_spec(*j) == Err::<Seq<char>, ErrorKind>(error_kind(e)),
        },
{
    proof {
        reveal_strlit("id");
        reveal_strlit("notification_id");
        assert("id"@ =~= key_id());
        assert("notification_id"@ =~= key_notification_id());
    }
    match j.get("id") {
        Some(v) => Ok(id_of(v)),
        None => match j.get("notification_id") {
            Some(v) => Ok(id_of(v)),
            None => Err(EventError::MissingField),
        },
    }
}

fn server_time(j: &Json) -> (r: Option<String>)
    ensures
        match r {
            Some(s) => server_time_spec(*j) == Some(s@),
            None => server_time_spec(*j) is None,
        },
{
    proof {
        reveal_strlit("server_time");
        reveal_strlit("time");
        assert("server_time"@ =~= seq!['s', 'e', 'r', 'v', 'e', 'r', '_', 't', 'i', 'm', 'e']);
        assert("time"@ =~= seq!['t', 'i', 'm', 'e']);
    }
    let v = match j.get("server_time") {
        Some(v) => Some(v),
        None => j.get("time"),
    };
    match v {
        Some(v) => match v.as_str() {
            Some(s) => Some(s.to_owned()),
            None => None,
        },
        None => None,
    }
}

/// Whether a value has an `id` and a `message` or `title`.
fn is_notification_payload(j: &Json) -> (b: bool)
    ensures
        b == is_notification_payload_spec(*j),
{
    proof {
        reveal_strlit("id");
        reveal_strlit("message");
        reveal_strlit("title");
        assert("id"@ =~= key_id());
        assert("message"@ =~= seq!['m', 'e', 's', 's', 'a', 'g', 'e']);
        assert("title"@ =~= seq!['t', 'i', 't', 'l', 'e']);
    }
    j.get("id").is_some() && (j.get("message").is_some() || j.get("title").is_some())
}

impl SseServerEvent {
    /// Reads a frame (event name and data). `Ok(None)`: nothing to do (empty
    /// data); `Err`: unreadable, to be logged and skipped.
    pub fn parse(event: Option<&str>, data: &str) -> (r: Result<Option<SseServerEvent>, EventError>)
        ensures
            outcome_opt(r) == parse_spec(
                match event {
                    Some(e) => Some(e@),
                    None => None,
                },
                data@,
            ),
    {
        let name = match event {
            Some(e) => trim_str(e),
            None => {
                proof {
                    reveal_strlit("");
                }
                assert(""@ =~= Seq::<char>::empty());
                trim_str("")
            },
        };
        let d = trim_str(data);
        if d.unicode_len() == 0 {
            return Ok(None);
        }
        let json = match parse_json(d) {
            Ok(j) => j,
            Err(msg) => {
                return Err(EventError::Json(msg));
            },
        };
        match Self::parse_value(name, json) {
            Ok(e) => Ok(Some(e)),
            Err(e) => Err(e),
        }
    }

    /// Reads a value under a (trimmed) event name.
    fn parse_value(name: &str, json: Json) -> (r: Result<SseServerEvent, EventError>)
        ensures
            outcome(r) == value_event_spec(name@, json),
        decreases json, 1int,
    {
        if name.unicode_len() == 0 {
            return Self::parse_default(json);
        }
        let notification_names = vec![
            vec!['n', 'o', 't', 'i', 'f', 'i', 'c', 'a', 't', 'i', 'o', 'n'],
            vec!['n', 'o', 't', 'i', 'c', 'e'],
            vec!['m', 'e', 's', 's', 'a', 'g', 'e'],
        ];
        let read_all_names = vec![vec!['r', 'e', 'a', 'd', '_', 'a', 'l', 'l'], vec!['r', 'e', 'a', 'd', 'A', 'l', 'l']];
        let clear_names = vec![
            vec!['c', 'l', 'e', 'a', 'r'],
            vec!['c', 'l', 'e', 'a', 'r', '_', 'a', 'l', 'l'],
            vec!['c', 'l', 'e', 'a', 'r', 'A', 'l', 'l'],
        ];
        let connected_names = vec![vec!['c', 'o', 'n', 'n', 'e', 'c', 't', 'e', 'd'], vec!['r', 'e', 'a', 'd', 'y']];
        let ping_names = vec![
            vec!['p', 'i', 'n', 'g'],
            vec!['h', 'e', 'a', 'r', 't', 'b', 'e', 'a', 't'],
            vec!['k', 'e', 'e', 'p', 'a', 'l', 'i', 'v', 'e'],
        ];
        assert(notification_names@.map_values(|w: Vec<char>| w@) =~= names_notification());
        assert(read_all_names@.map_values(|w: Vec<char>| w@) =~= names_read_all());
        assert(clear_names@.map_values(|w: Vec<char>| w@) =~= names_clear());
        assert(connected_names@.map_values(|w: Vec<char>| w@) =~= names_connected());
        assert(ping_names@.map_values(|w: Vec<char>| w@) =~= names_ping());
        if name_in(name, &notification_names) {
            Ok(SseServerEvent::Notification(json))
        } else if str_is(name, &vec!['r', 'e', 'a', 'd']) {
            match required_id(&json) {
                Ok(id) => Ok(SseServerEvent::Read { id }),
                Err(e) => Err(e),
            }
        } else if name_in(name, &read_all_names) {
            Ok(SseServerEvent::ReadAll)
        } else if name_in(name, &clear_names) {
            Ok(SseServerEvent::Clear)
        } else if name_in(name, &connected_names) {
            Ok(SseServerEvent::Connected { server_time: server_time(&json) })
        } else if name_in(name, &ping_names) {
            Ok(SseServerEvent::Ping)
        } else {
            Self::parse_default(json)
        }
    }

    /// Reads a value without a known event name: a notification payload, else
    /// an `{ "event": ..., "data": ... }` envelope.
    fn parse_default(json: Json) -> (r: Result<SseServerEvent, EventError>)
        ensures
            outcome(r) == default_event_spec(json),
        decreases json, 0int,
    {
        if is_notification_payload(&json) {
            return Ok(SseServerEvent::Notification(json));
        }
        proof {
            reveal_strlit("event");
            reveal_strlit("data");
            assert("event"@ =~= seq!['e', 'v', 'e', 'n', 't']);
            assert("data"@ =~= seq!['d', 'a', 't', 'a']);
        }
        let name: String = match json.get("event") {
            Some(ev) => match ev.as_str() {
                Some(n) => n.to_owned(),
                None => {
                    return Err(EventError::Unsupported);
                },
            },
            None => {
                return Err(EventError::Unsupported);
            },
        };
        let ghost j0 = json;
        match json {
            Json::Object(mut es) => {
                let i = find_key(&es, "data");
                if i < es.len() {
                    proof {
                        let c = choose|c: int| first_key_at(es@, seq!['d', 'a', 't', 'a'], c);
                        lemma_first_key_unique(es@, seq!['d', 'a', 't', 'a'], c, i as int);
                    }
                    let ghost es0 = es@;
                    let entry = es.remove(i);
                    let sub = entry.1;
                    assert(sub == es0[i as int].1);
                    assert(decreases_to!(j0 => sub)) by {
                        assert(decreases_to!(j0 => es0));
                        assert(decreases_to!(es0 => es0[i as int]));
                    }
                    Self::parse_value(trim_str(name.as_str()), sub)
                } else {
                    Ok(SseServerEvent::Ping)
                }
            },
            _ => Err(EventError::Unsupported),
        }
    }
}

/// A notification of the application.
#[derive(Debug)]
pub struct Notification {
    /// Unique id (given by the server).
    pub id: String,
    pub level: NotificationLevel,
    pub title: String,
    pub message: String,
    /// Origin (application or service), empty when not given.
    pub source: String,
    /// Creation time, milliseconds since the Unix epoch.
    pub created_at: i64,
    /// Optional link.
    pub link: Option<String>,
    /// Read locally.
    pub read: bool,
    /// Extra server fields, passed through.
    pub metadata: Option<Json>,
}

/// A notification as a value of the specification.
pub struct NotificationModel {
    pub id: Seq<char>,
    pub level: NotificationLevel,
    pub title: Seq<char>,
    pub message: Seq<char>,
    pub source: Seq<char>,
    pub created_at: i64,
    pub link: Option<Seq<char>>,
    pub read: bool,
    pub metadata: Option<Json>,
}

impl View for Notification {
    type V = NotificationModel;

    open spec fn view(&self) -> NotificationModel {
        NotificationModel {
            id: self.id@,
            level: self.level,
            title: self.title@,
            message: self.message@,
            source: self.source@,
            created_at: self.created_at,
            link: match self.link {
                Some(l) => Some(l@),
                None => None,
            },
            read: self.read,
            metadata: self.metadata,
        }
    }
}

impl Notification {
    /// A new, unread notification created now (the epoch when the clock is set
    /// before it), without source, link or metadata.
    pub fn new(id: &str, level: NotificationLevel, title: &str, message: &str) -> (n: Self)
        ensures
            n.id@ == id@,
            n.level == level,
            n.title@ == title@,
            n.message@ == message@,
            n.source@.len() == 0,
            n.link is None,
            !n.read,
            n.metadata is None,
            n.created_at >= 0,
    {
        Notification {
            id: id.to_owned(),
            level,
            title: title.to_owned(),
            message: message.to_owned(),
            source: String::new(),
            created_at: millis_from_epoch(crate::clock::epoch_millis()),
            link: None,
            read: false,
            metadata: None,
        }
    }
}

/// Milliseconds since the Unix epoch from the reading of the clock: none (a
/// clock before 1970) is 0, and a count beyond `i64` stops at its largest
/// value.
pub fn millis_from_epoch(elapsed: Option<u128>) -> (t: i64)
    ensures
        t == match elapsed {
            Some(ms) => if ms <= i64::MAX as u128 { ms as int } else { i64::MAX as int },
            None => 0,
        },
{
    match elapsed {
        Some(ms) => if ms <= i64::MAX as u128 { ms as i64 } else { i64::MAX },
        None => 0,
    }
}

/// The milliseconds of the instant `chrono` makes of a millisecond count,
/// when it can represent it.
pub uninterp spec fn chrono_millis(ms: i64) -> Option<i64>;

/// Calls `chrono::DateTime::from_timestamp_millis` and reads the instant back
/// with `timestamp_millis`. Claimed: the result is the name `chrono_millis`, a
/// value that comes back is the count given (the documented round trip), and
/// counts within ±8·10¹⁵ (about ±253,000 years, inside chrono's years
/// −262143 to 262142) come back; the exact edges of the range are left to the
/// name.
#[verifier::external_body]
fn from_millis(ms: i64) -> (r: Option<i64>)
    ensures
        r == chrono_millis(ms),
        r matches Some(x) ==> x == ms,
        -8_000_000_000_000_000 <= ms <= 8_000_000_000_000_000 ==> r == Some(ms),
{
    chrono::DateTime::from_timestamp_millis(ms).map(|d| d.timestamp_millis())
}

/// The milliseconds of the instant `chrono` makes of a second count, when it
/// can represent it.
pub uninterp spec fn chrono_secs(secs: i64) -> Option<i64>;

/// Calls `chrono::DateTime::from_timestamp(secs, 0)` and reads the instant in
/// milliseconds. Claimed: the result is the name `chrono_secs`, a value that
/// comes back is `secs * 1000` (the documented round trip of whole seconds),
/// and counts within ±8·10¹² (inside chrono's years −262143 to 262142) come
/// back; the exact edges of the range are left to the name.
#[verifier::external_body]
fn from_secs(secs: i64) -> (r: Option<i64>)
    ensures
        r == chrono_secs(secs),
        r matches Some(x) ==> x == secs * 1000,
        -8_000_000_000_000 <= secs <= 8_000_000_000_000 ==> r == Some((secs * 1000) as i64),
{
    chrono::DateTime::from_timestamp(secs, 0).map(|d| d.timestamp_millis())
}

/// The instant (milliseconds) `chrono` reads from an RFC 3339 text.
pub uninterp spec fn rfc3339_millis(s: Seq<char>) -> Option<i64>;

/// Calls `chrono::DateTime::parse_from_rfc3339`. Claimed: the result is the
/// name `rfc3339_millis` (the grammar is chrono's).
#[verifier::external_body]
fn parse_rfc3339(s: &str) -> (r: Option<i64>)
    ensures
        r == rfc3339_millis(s@),
{
    chrono::DateTime::parse_from_rfc3339(s).ok().map(|d| d.timestamp_millis())
}

/// The instant (milliseconds) `chrono` reads from a text in the form
/// `%Y-%m-%d %H:%M:%S%.f %z`.
pub uninterp spec fn zoned_millis(s: Seq<char>) -> Option<i64>;

/// Calls `chrono::DateTime::parse_from_str` with `%Y-%m-%d %H:%M:%S%.f %z`.
/// Claimed: the result is the name `zoned_millis`.
#[verifier::external_body]
fn parse_zoned(s: &str) -> (r: Option<i64>)
    ensures
        r == zoned_millis(s@),
{
    chrono::DateTime::parse_from_str(s, "%Y-%m-%d %H:%M:%S%.f %z").ok().map(|d| d.timestamp_millis())
}

/// The instant (milliseconds, taken as UTC) `chrono` reads from a text in the
/// form `%Y-%m-%d %H:%M:%S%.f`.
pub uninterp spec fn naive_millis(s: Seq<char>) -> Option<i64>;

/// Calls `chrono::NaiveDateTime::parse_from_str` with `%Y-%m-%d %H:%M:%S%.f`
/// and takes the result as UTC. Claimed: the result is the name `naive_millis`.
#[verifier::external_body]
fn parse_naive(s: &str) -> (r: Option<i64>)
    ensures
        r == naive_millis(s@),
{
    chrono::NaiveDateTime::parse_from_str(s, "%Y-%m-%d %H:%M:%S%.f").ok().map(|d| d.and_utc().timestamp_millis())
}

/// An instant given in whole seconds, in milliseconds; `now` when `chrono`
/// cannot represent it.
pub fn timestamp_from_secs(secs: i64, now: i64) -> (ms: i64)
    ensures
        ms == match chrono_secs(secs) {
            Some(x) => x,
            None => now,
        },
{
    match from_secs(secs) {
        Some(x) => x,
        None => now,
    }
}

/// Why a timestamp could not be read.
#[derive(Debug)]
pub enum TimestampError {
    /// A text in none of the accepted forms.
    UnrecognizedFormat(String),
    /// A boolean, array or object.
    UnsupportedValue,
    /// A number with a fraction or exponent (its text): its whole seconds are
    /// floating-point arithmetic, left to the caller, which then calls
    /// [`timestamp_from_secs`].
    Fractional(String),
}

/// A creation time read flexibly: an integer above ten billion counts
/// milliseconds, any other integer seconds (an integer beyond `i64` saturates,
/// as its conversion through `f64` does); a fractional number is left to the
/// caller; a text is RFC 3339, or `%Y-%m-%d %H:%M:%S%.f %z`, or the same
/// without zone taken as UTC; `null` is `now`; an instant `chrono` cannot
/// represent is `now` too. Times are milliseconds.
pub open spec fn flexible_timestamp_spec(v: Json, now: i64) -> Option<i64> {
    match v {
        Json::Null => Some(now),
        Json::Int(_) | Json::UInt(_) => {
            let got = match json_i64(v) {
                Some(secs) => if secs > 10_000_000_000 { chrono_millis(secs) } else { chrono_secs(secs) },
                None => chrono_secs(i64::MAX),
            };
            match got {
                Some(ms) => Some(ms),
                None => Some(now),
            }
        },
        Json::Str(s) => match rfc3339_millis(s@) {
            Some(ms) => Some(ms),
            None => match zoned_millis(s@) {
                Some(ms) => Some(ms),
                None => naive_millis(s@),
            },
        },
        _ => None,
    }
}

/// Reads a creation time flexibly (see [`flexible_timestamp_spec`]); `now` is
/// the time used for `null` and for instants out of range.
pub fn flexible_timestamp(v: &Json, now: i64) -> (r: Result<i64, TimestampError>)
    ensures
        json_i64(*v) matches Some(x) ==> (-8_000_000_000_000 <= x <= 8_000_000_000_000_000
            ==> r == Ok::<i64, TimestampError>(if x > 10_000_000_000 { x } else { (x * 1000) as i64 })),
        match r {
            Ok(ms) => flexible_timestamp_spec(*v, now) == Some(ms),
            Err(TimestampError::Fractional(t)) => *v matches Json::Float(x) && x@ == t@,
            Err(_) => flexible_timestamp_spec(*v, now) is None && !(*v is Float),
        },
{
    match v {
        Json::Null => Ok(now),
        Json::Float(t) => Err(TimestampError::Fractional(t.clone())),
        Json::Int(_) | Json::UInt(_) => {
            let got = match v.as_i64() {
                Some(secs) => if secs > 10_000_000_000 { from_millis(secs) } else { from_secs(secs) },
                None => from_secs(i64::MAX),
            };
            match got {
                Some(ms) => Ok(ms),
                None => Ok(now),
            }
        },
        Json::Str(s) => match parse_rfc3339(s.as_str()) {
            Some(ms) => Ok(ms),
            None => match parse_zoned(s.as_str()) {
                Some(ms) => Ok(ms),
                None => match parse_naive(s.as_str()) {
                    Some(ms) => Ok(ms),
                    None => Err(TimestampError::UnrecognizedFormat(s.clone())),
                },
            },
        },
        _ => Err(TimestampError::UnsupportedValue),
    }
}

} // verus!

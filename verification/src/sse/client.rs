//! The decisions of the notification-app SSE client: the connection states
//! and their labels, its settings, the reconnect delay and its endpoints. The
//! connection itself runs outside the library.

use vstd::prelude::*;
use std::hash::{Hash, Hasher};
use vstd::string::StringExecFns;
use crate::fmt::{decimal_text, digits, push_digits};
use crate::sse::parser::SseMessage;

verus! {

/// The connection state shown in the title and status bars.
#[derive(Debug, Clone, PartialEq, Eq)]
pub enum ConnectionState {
    /// Not connected (never, or stopped).
    Disconnected,
    /// Connecting.
    Connecting,
    /// Connected, receiving.
    Connected,
    /// Failed; reconnect attempt `attempt` follows after a backoff.
    Reconnecting { attempt: u32 },
    /// An error (followed by reconnecting).
    Error(String),
}

pub open spec fn label_spec(s: ConnectionState) -> Seq<char> {
    match s {
        ConnectionState::Disconnected => seq!['未', '连', '接'],
        ConnectionState::Connecting => seq!['连', '接', '中', '…'],
        ConnectionState::Connected => seq!['已', '连', '接'],
        ConnectionState::Reconnecting { attempt } => seq!['重', '连', '中', ' ', '(', '第', ' ']
            + digits(attempt as nat, 10) + seq![' ', '次', ')'],
        ConnectionState::Error(msg) => seq!['连', '接', '异', '常', ':', ' '] + msg@,
    }
}

impl ConnectionState {
    /// The label shown for the state.
    pub fn label(&self) -> (s: String)
        ensures
            s@ == label_spec(*self),
    {
        proof {
            reveal_strlit("未连接");
            reveal_strlit("连接中…");
            reveal_strlit("已连接");
            reveal_strlit("重连中 (第 ");
            reveal_strlit(" 次)");
            reveal_strlit("连接异常: ");
        }
        match self {
            ConnectionState::Disconnected => {
                let s = String::from_str("未连接");
                assert(s@ =~= label_spec(*self));
                s
            },
            ConnectionState::Connecting => {
                let s = String::from_str("连接中…");
                assert(s@ =~= label_spec(*self));
                s
            },
            ConnectionState::Connected => {
                let s = String::from_str("已连接");
                assert(s@ =~= label_spec(*self));
                s
            },
            ConnectionState::Reconnecting { attempt } => {
                let mut s = String::from_str("重连中 (第 ");
                push_digits(&mut s, *attempt as u64, 10);
                s.append(" 次)");
                assert(s@ =~= label_spec(*self));
                s
            },
            ConnectionState::Error(msg) => {
                let mut s = String::from_str("连接异常: ");
                s.append(msg.as_str());
                assert(s@ =~= label_spec(*self));
                s
            },
        }
    }
}

/// The short status text of the title bar.
pub open spec fn status_spec(s: ConnectionState) -> Seq<char> {
    match s {
        ConnectionState::Connected => seq!['已', '连', '接'],
        ConnectionState::Connecting => seq!['连', '接', '中', '…'],
        ConnectionState::Reconnecting { .. } => seq!['重', '连', '中'],
        ConnectionState::Error(_) => seq!['连', '接', '异', '常'],
        ConnectionState::Disconnected => seq!['未', '连', '接'],
    }
}

/// The short status text of the title bar (its colour is chosen by the window).
pub fn status_text(state: &ConnectionState) -> (s: String)
    ensures
        s@ == status_spec(*state),
{
    proof {
        reveal_strlit("已连接");
        reveal_strlit("连接中…");
        reveal_strlit("重连中");
        reveal_strlit("连接异常");
        reveal_strlit("未连接");
    }
    let t = match state {
        ConnectionState::Connected => "已连接",
        ConnectionState::Connecting => "连接中…",
        ConnectionState::Reconnecting { .. } => "重连中",
        ConnectionState::Error(_) => "连接异常",
        ConnectionState::Disconnected => "未连接",
    };
    let s = String::from_str(t);
    assert(s@ =~= status_spec(*state));
    s
}

/// What the client reports to the window.
#[derive(Debug, Clone)]
pub enum SseClientEvent {
    /// The connection state changed.
    State(ConnectionState),
    /// A complete SSE event.
    Message(SseMessage),
}

/// Connection and reconnect settings, in milliseconds.
#[derive(Debug, Clone)]
pub struct SseConfig {
    /// No data for this long means the connection is dead.
    pub heartbeat_timeout: u64,
    /// The first backoff.
    pub backoff_base: u64,
    /// The largest backoff.
    pub backoff_max: u64,
}

impl Default for SseConfig {
    fn default() -> (c: Self)
        ensures
            c.heartbeat_timeout == 45000,
            c.backoff_base == 500,
            c.backoff_max == 30000,
    {
        SseConfig { heartbeat_timeout: 45000, backoff_base: 500, backoff_max: 30000 }
    }
}

/// The backoff before jitter: the base (at least 100 ms) doubled for each
/// attempt after the first, at most 8 times (saturating), capped by the
/// maximum.
pub open spec fn capped_backoff(attempt: u32, base: u64, max: u64) -> nat {
    let b: nat = if base < 100 { 100 } else { base as nat };
    let e: nat = if attempt == 0 { 0 } else if attempt - 1 > 8 { 8 } else { (attempt - 1) as nat };
    let raw = b * vstd::arithmetic::power2::pow2(e);
    let sat: nat = if raw > u64::MAX { u64::MAX as nat } else { raw };
    if sat < max { sat } else { max as nat }
}

/// The delay before reconnect attempt `attempt`: the capped backoff plus a
/// jitter of `seed` modulo a quarter of it (plus one).
pub fn backoff_with_jitter(attempt: u32, config: &SseConfig, seed: u64) -> (ms: u64)
    requires
        config.backoff_max + config.backoff_max / 4 <= u64::MAX,
    ensures
        ({
            let c = capped_backoff(attempt, config.backoff_base, config.backoff_max);
            ms == c + (seed as nat) % (c / 4 + 1)
        }),
{
    let base: u64 = if config.backoff_base < 100 { 100 } else { config.backoff_base };
    let a1: u32 = attempt.saturating_sub(1);
    let e: u32 = if a1 > 8 { 8 } else { a1 };
    let mut factor: u64 = 1;
    let mut k: u32 = 0;
    proof {
        vstd::arithmetic::power2::lemma2_to64();
    }
    while k < e
        invariant
            k <= e <= 8,
            factor == vstd::arithmetic::power2::pow2(k as nat),
        decreases e - k,
    {
        proof {
            vstd::arithmetic::power2::lemma_pow2_unfold((k + 1) as nat);
            vstd::arithmetic::power2::lemma_pow2_strictly_increases(k as nat, 8);
            vstd::arithmetic::power2::lemma2_to64();
        }
        factor = factor * 2;
        k = k + 1;
    }
    let raw: u64 = match base.checked_mul(factor) {
        Some(v) => v,
        None => u64::MAX,
    };
    let capped: u64 = if raw < config.backoff_max { raw } else { config.backoff_max };
    let jitter: u64 = seed % (capped / 4 + 1);
    capped + jitter
}

/// The delay before reconnect attempt `attempt`, with a pseudo-random jitter
/// of up to a quarter of the backoff (so that clients do not reconnect in step).
pub fn backoff_delay(attempt: u32, config: &SseConfig) -> (ms: u64)
    requires
        config.backoff_max + config.backoff_max / 4 <= u64::MAX,
    ensures
        ({
            let c = capped_backoff(attempt, config.backoff_base, config.backoff_max);
            c <= ms <= c + c / 4
        }),
{
    let seed = jitter_seed(attempt);
    let ms = backoff_with_jitter(attempt, config, seed);
    proof {
        let c = capped_backoff(attempt, config.backoff_base, config.backoff_max);
        vstd::arithmetic::div_mod::lemma_mod_bound(seed as int, (c / 4 + 1) as int);
    }
    ms
}

/// Reads `SystemTime::elapsed` on the current time, in nanoseconds (0 when the
/// clock went backwards). Nothing is claimed of the value.
#[verifier::external_body]
fn clock_nanos() -> (n: u128) {
    std::time::SystemTime::now().elapsed().map(|d| d.as_nanos()).unwrap_or(0)
}

/// Hashes an attempt number and a clock reading with `DefaultHasher`. Nothing
/// is claimed of the value: it serves as a pseudo-random jitter.
#[verifier::external_body]
fn hash_pair(attempt: u32, nanos: u128) -> (h: u64) {
    let mut hasher = std::collections::hash_map::DefaultHasher::new();
    (attempt, nanos).hash(&mut hasher);
    hasher.finish()
}

/// A pseudo-random seed for the jitter: the attempt number hashed with the
/// clock.
fn jitter_seed(attempt: u32) -> u64 {
    hash_pair(attempt, clock_nanos())
}

/// The SSE endpoint of a server: `{server_url}/events`.
pub fn events_url(server_url: &str) -> (u: String)
    ensures
        u@ == server_url@ + seq!['/', 'e', 'v', 'e', 'n', 't', 's'],
{
    let mut u = String::from_str(server_url);
    u.append("/events");
    proof {
        reveal_strlit("/events");
    }
    assert(u@ =~= server_url@ + seq!['/', 'e', 'v', 'e', 'n', 't', 's']);
    u
}

/// The test-push endpoint of a server: `{server_url}/send`.
pub fn send_url(server_url: &str) -> (u: String)
    ensures
        u@ == server_url@ + seq!['/', 's', 'e', 'n', 'd'],
{
    let mut u = String::from_str(server_url);
    u.append("/send");
    proof {
        reveal_strlit("/send");
    }
    assert(u@ =~= server_url@ + seq!['/', 's', 'e', 'n', 'd']);
    u
}

/// The attempt count after the server closed the stream itself: a closed
/// stream is no failure, so the count steps back by one, but not below one
/// (a reconnect still waits the shortest backoff).
pub fn attempt_after_close(attempt: u32) -> (a: u32)
    ensures
        a == if attempt <= 2 { 1 } else { attempt - 1 },
{
    let a = attempt.saturating_sub(1);
    if a < 1 { 1 } else { a }
}

/// What the reconnect loop does before connection attempt `attempt` (counted
/// before the increment): the first goes at once; every later one reports
/// `Reconnecting` and waits its backoff first. Returns the state to report
/// with the wait, and the attempt number after the increment.
pub fn before_attempt(attempt: u32, config: &SseConfig) -> (r: (Option<(ConnectionState, u64)>, u32))
    requires
        config.backoff_max + config.backoff_max / 4 <= u64::MAX,
        attempt < u32::MAX,
    ensures
        r.1 == attempt + 1,
        attempt == 0 <==> r.0 is None,
        r.0 matches Some((st, ms)) ==> ({
            let c = capped_backoff(attempt, config.backoff_base, config.backoff_max);
            &&& st == (ConnectionState::Reconnecting { attempt })
            &&& c <= ms <= c + c / 4
        }),
{
    let pause = if attempt > 0 {
        let ms = backoff_delay(attempt, config);
        Some((ConnectionState::Reconnecting { attempt }, ms))
    } else {
        None
    };
    (pause, attempt + 1)
}

/// The reconnect backoff never shrinks as attempts go on, and never passes the
/// configured maximum.
pub proof fn lemma_capped_backoff_monotone(a: u32, b: u32, base: u64, max: u64)
    requires
        a <= b,
    ensures
        capped_backoff(a, base, max) <= capped_backoff(b, base, max),
        capped_backoff(b, base, max) <= max,
{
    let bb: nat = if base < 100 { 100 } else { base as nat };
    let ea: nat = if a == 0 { 0 } else if a - 1 > 8 { 8 } else { (a - 1) as nat };
    let eb: nat = if b == 0 { 0 } else if b - 1 > 8 { 8 } else { (b - 1) as nat };
    assert(ea <= eb);
    if ea < eb {
        vstd::arithmetic::power2::lemma_pow2_strictly_increases(ea, eb);
    }
    vstd::arithmetic::power2::lemma_pow2_pos(ea);
    vstd::arithmetic::mul::lemma_mul_left_inequality(bb as int, vstd::arithmetic::power2::pow2(ea) as int,
        vstd::arithmetic::power2::pow2(eb) as int);
}

} // verus!

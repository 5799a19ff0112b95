//! What the backend connection reports to the window, and how the polling
//! backend moves its `since` mark. The connections themselves run outside the
//! library.

use vstd::prelude::*;
use vstd::string::{StrSliceExecFns, StringExecFns};
use crate::model::Msg;

verus! {

/// An event from the backend thread.
pub enum Ev {
    /// A message arrived.
    N(Msg),
    /// The connection status changed (`connecting`, `connected`, `polling`, `offline`).
    St(&'static str),
    /// The pop-up was dismissed.
    PopDone,
}

/// The `since` mark after a polled batch: the latest message time seen, never
/// moving back.
pub fn next_since(since: i64, batch: &Vec<Msg>) -> (r: i64)
    ensures
        r >= since,
        forall|i: int| 0 <= i < batch@.len() ==> r >= #[trigger] batch@[i].ts,
        r == since || exists|i: int| 0 <= i < batch@.len() && r == #[trigger] batch@[i].ts,
{
    let mut s = since;
    let n = batch.len();
    let mut i: usize = 0;
    while i < n
        invariant
            n == batch@.len(),
            i <= n,
            s >= since,
            forall|j: int| 0 <= j < i ==> s >= #[trigger] batch@[j].ts,
            s == since || exists|j: int| 0 <= j < i && s == #[trigger] batch@[j].ts,
        decreases n - i,
    {
        if batch[i].ts > s {
            s = batch[i].ts;
        }
        i = i + 1;
    }
    s
}

pub open spec fn authorization_name() -> Seq<char> {
    seq!['A', 'u', 't', 'h', 'o', 'r', 'i', 'z', 'a', 't', 'i', 'o', 'n']
}

/// The authorization header of a backend request: `Bearer <token>` when a
/// token is configured, none otherwise.
pub fn auth_header(token: &str) -> (h: Option<(String, String)>)
    ensures
        token@.len() == 0 ==> h is None,
        token@.len() > 0 ==> (h matches Some(p) && p.0@ == authorization_name()
            && p.1@ == seq!['B', 'e', 'a', 'r', 'e', 'r', ' '] + token@),
{
    if token.unicode_len() == 0 {
        return None;
    }
    proof {
        reveal_strlit("Authorization");
        reveal_strlit("Bearer ");
    }
    let name = String::from_str("Authorization");
    let mut value = String::from_str("Bearer ");
    value.append(token);
    assert(name@ =~= authorization_name());
    assert(value@ =~= seq!['B', 'e', 'a', 'r', 'e', 'r', ' '] + token@);
    Some((name, value))
}

/// The pause between two polls, in seconds: the configured one, at least one.
pub fn poll_pause(poll_secs: u64) -> (r: u64)
    ensures
        r == if poll_secs < 1 { 1 } else { poll_secs },
{
    if poll_secs < 1 { 1 } else { poll_secs }
}

} // verus!

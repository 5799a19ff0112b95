//! The decisions of the background feed: the reconnect wait and the polling
//! address. The connection itself runs outside the library.

use vstd::prelude::*;
use vstd::string::StringExecFns;
use crate::fmt::{decimal_i64, decimal_text};
use crate::text::{chars_of, find_first};

verus! {

/// The first wait before reconnecting, in milliseconds: the configured one,
/// at least 200.
pub fn first_wait(retry_ms: u64) -> (w: u64)
    ensures
        w == if retry_ms < 200 { 200 } else { retry_ms },
{
    if retry_ms < 200 { 200 } else { retry_ms }
}

/// The largest wait, but never below the current one.
pub open spec fn wait_cap(wait: u64, retry_max_ms: u64) -> u64 {
    if retry_max_ms < wait { wait } else { retry_max_ms }
}

/// The next wait after a failed connection: doubled, but not beyond the
/// largest wait (nor below the current one when the largest is smaller).
pub fn next_wait(wait: u64, retry_max_ms: u64) -> (w: u64)
    requires
        wait <= u64::MAX / 2,
    ensures
        w == if 2 * wait < wait_cap(wait, retry_max_ms) { 2 * wait } else { wait_cap(wait, retry_max_ms) as int },
{
    let cap = if retry_max_ms < wait { wait } else { retry_max_ms };
    let d = wait * 2;
    if d < cap { d } else { cap }
}

/// The polling address: `since=<unix seconds>` appended as a query parameter,
/// after `&` when the address already has a query, else after `?`.
pub fn with_since(base: &str, since: i64) -> (u: String)
    ensures
        u@ == base@ + seq![if base@.contains('?') { '&' } else { '?' }] + seq!['s', 'i', 'n', 'c', 'e', '=']
            + decimal_text(since as int),
{
    let chars = chars_of(base);
    let q = find_first(&chars, '?');
    let mut u = String::from_str(base);
    if q < chars.len() {
        u.append("&since=");
        proof {
            reveal_strlit("&since=");
            assert(base@[q as int] == '?');
        }
    } else {
        u.append("?since=");
        proof {
            reveal_strlit("?since=");
        }
    }
    let n = decimal_i64(since);
    u.append(n.as_str());
    assert(u@ =~= base@ + seq![if base@.contains('?') { '&' } else { '?' }] + seq!['s', 'i', 'n', 'c', 'e', '=']
        + decimal_text(since as int));
    u
}

} // verus!

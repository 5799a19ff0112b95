//! Reading the wall clock.

use vstd::prelude::*;

verus! {

/// Reads `std::time::SystemTime::now` as whole seconds since the Unix epoch;
/// `None` when the clock is set before it. Nothing is claimed of the value.
#[verifier::external_body]
pub(crate) fn epoch_secs() -> (r: Option<u64>) {
    std::time::SystemTime::now().duration_since(std::time::UNIX_EPOCH).ok().map(|d| d.as_secs())
}

/// Reads `std::time::SystemTime::now` as whole milliseconds since the Unix
/// epoch; `None` when the clock is set before it. Nothing is claimed of the
/// value.
#[verifier::external_body]
pub(crate) fn epoch_millis() -> (r: Option<u128>) {
    std::time::SystemTime::now().duration_since(std::time::UNIX_EPOCH).ok().map(|d| d.as_millis())
}

} // verus!

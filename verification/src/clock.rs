//! The node's clock.

use std::time::UNIX_EPOCH;
use vstd::prelude::*;

verus! {

/// `SystemTime::elapsed` of std, asked of the Unix epoch: the whole seconds since then by the
/// system's clock, and none where the clock stands before it. What the clock says is the
/// machine's; nothing is claimed of it.
#[verifier::external_body]
fn elapsed() -> (seconds: Option<u64>) {
    match UNIX_EPOCH.elapsed() {
        Ok(since) => Some(since.as_secs()),
        Err(_) => None,
    }
}

/// A reading of the clock as seconds since the Unix epoch: zero where it stands before the epoch,
/// and no more than the type holds.
pub fn seconds(elapsed: Option<u64>) -> (now: i64)
    ensures
        now as int == match elapsed {
            None => 0,
            Some(since) => if since <= i64::MAX {
                since as int
            } else {
                i64::MAX as int
            },
        },
{
    match elapsed {
        None => 0,
        Some(since) => if since <= i64::MAX as u64 {
            since as i64
        } else {
            i64::MAX
        },
    }
}

/// Seconds since the Unix epoch, now.
#[must_use]
pub fn now() -> (now: i64)
    ensures
        now >= 0,
{
    seconds(elapsed())
}

} // verus!

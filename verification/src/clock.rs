//! Wall-clock readings, as plain second counts since the Unix epoch.

use vstd::prelude::*;

verus! {

/// Relies on `std::time::SystemTime::now` and
/// `SystemTime::duration_since(UNIX_EPOCH)`: the current wall-clock time as
/// whole seconds since the Unix epoch, or 0 if the clock reads earlier than
/// the epoch.  Nothing more can be promised of a clock reading.
#[verifier::external_body]
pub fn now_ts() -> (r: i64)
    ensures
        r >= 0,
{
    std::time::SystemTime::now()
        .duration_since(std::time::UNIX_EPOCH)
        .map(|d| d.as_secs() as i64)
        .unwrap_or(0)
}

/// The same clock reading as [`now_ts`], as an unsigned count.
pub fn chrono_like_ts() -> (r: u64) {
    let t = now_ts();
    t as u64
}

} // verus!

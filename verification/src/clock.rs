//! Wall-clock readings, in milliseconds and nanoseconds since the Unix epoch.
use vstd::prelude::*;

verus! {

/// Milliseconds since the Unix epoch (`SystemTime::elapsed` on
/// `UNIX_EPOCH`), or `None` if the clock reads before the epoch. Nothing is
/// stated of the value: it depends on the time of the call.
#[verifier::external_body]
pub(crate) fn epoch_ms() -> Option<u64> {
    std::time::UNIX_EPOCH.elapsed().ok().map(|d| d.as_millis() as u64)
}

/// Milliseconds since the Unix epoch, 0 if the clock reads before the epoch.
pub(crate) fn now_ms() -> u64 {
    match epoch_ms() {
        Some(t) => t,
        None => 0,
    }
}

/// Nanoseconds since the Unix epoch (`SystemTime::elapsed` on `UNIX_EPOCH`;
/// 0 if the clock reads before the epoch). Nothing is stated of the value.
#[verifier::external_body]
pub(crate) fn now_nanos() -> u64 {
    std::time::UNIX_EPOCH.elapsed().map_or(0, |d| d.as_nanos() as u64)
}

/// Time elapsed from `then` to `now` (0 if `now` is earlier).
pub open spec fn elapsed(then: u64, now: u64) -> u64 {
    if now >= then {
        (now - then) as u64
    } else {
        0
    }
}

pub fn elapsed_ms(then: u64, now: u64) -> (r: u64)
    ensures
        r == elapsed(then, now),
{
    if now >= then {
        now - then
    } else {
        0
    }
}

} // verus!

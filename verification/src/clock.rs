//! Times and durations, in nanoseconds on one monotonic clock.

use vstd::prelude::*;

verus! {

/// One millisecond.
pub const MILLISECOND: u64 = 1_000_000;

/// One second.
pub const SECOND: u64 = 1_000_000_000;

/// The time that has passed since `since`; none where that lies ahead.
pub open spec fn passed(now: u64, since: u64) -> nat {
    if now >= since {
        (now - since) as nat
    } else {
        0
    }
}

/// The time that has passed since `since`; none where that lies ahead.
pub fn elapsed(now: u64, since: u64) -> (duration: u64)
    ensures
        duration == passed(now, since),
{
    now.saturating_sub(since)
}

/// What is left of `interval` after the time since `since`.
pub open spec fn left(interval: u64, now: u64, since: u64) -> nat {
    if passed(now, since) <= interval {
        (interval - passed(now, since)) as nat
    } else {
        0
    }
}

/// What is left of `interval` after the time since `since`.
pub fn remaining(interval: u64, now: u64, since: u64) -> (duration: u64)
    ensures
        duration == left(interval, now, since),
{
    interval.saturating_sub(elapsed(now, since))
}

/// Whether something is due that last happened at `last`, or never.
pub open spec fn is_due(last: Option<u64>, now: u64, interval: u64) -> bool {
    match last {
        Some(at) => passed(now, at) >= interval,
        None => true,
    }
}

/// Whether something is due that last happened at `last`, or never.
pub fn due(last: Option<u64>, now: u64, interval: u64) -> (yes: bool)
    ensures
        yes == is_due(last, now, interval),
{
    match last {
        Some(at) => elapsed(now, at) >= interval,
        None => true,
    }
}

/// Time that has passed and time that is left make up the interval, until it is
/// over; something is due exactly when nothing is left of its interval.
pub proof fn passed_and_left_make_up_the_interval(interval: u64, now: u64, since: u64)
    requires
        since <= now,
    ensures
        passed(now, since) == now - since,
        passed(since, now) == 0,
        now - since <= interval ==> left(interval, now, since) + (now - since) == interval,
        now - since > interval ==> left(interval, now, since) == 0,
        is_due(Some(since), now, interval) <==> now - since >= interval,
        is_due(None, now, interval),
{
}

} // verus!

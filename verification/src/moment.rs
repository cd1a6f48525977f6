//! Points in time, to the nanosecond.
use vstd::prelude::*;

verus! {

/// A point in time: seconds since 1970-01-01 00:00:00 UTC and the nanoseconds past them.
#[derive(Clone, Copy, Debug, PartialEq, Eq, Structural)]
pub struct Moment {
    pub seconds: i64,
    pub nanos: u32,
}

/// The first and the last second of the calendar.
pub const FIRST_SECOND: i64 = -8_334_601_228_800;

pub const LAST_SECOND: i64 = 8_210_266_876_799;

impl Moment {
    pub open spec fn ok(self) -> bool {
        FIRST_SECOND <= self.seconds <= LAST_SECOND && self.nanos < 1_000_000_000
    }

    /// The nanoseconds since the start of 1970.
    pub open spec fn total(self) -> int {
        self.seconds * 1_000_000_000 + self.nanos
    }
}

/// Division that drops the fraction, on either side of zero.
pub open spec fn quotient(value: int, divisor: int) -> int
    recommends
        divisor > 0,
{
    if value < 0 {
        -((-value) / divisor)
    } else {
        value / divisor
    }
}

/// The whole seconds from `earlier` to `later`.
pub open spec fn elapsed(earlier: Moment, later: Moment) -> int {
    quotient(later.total() - earlier.total(), 1_000_000_000)
}

pub fn seconds_since(earlier: Moment, later: Moment) -> (result: i64)
    requires
        earlier.ok(),
        later.ok(),
    ensures
        result == elapsed(earlier, later),
        -20_000_000_000_000 < result < 20_000_000_000_000,
{
    let from: i128 = earlier.seconds as i128 * 1_000_000_000 + earlier.nanos as i128;
    let to: i128 = later.seconds as i128 * 1_000_000_000 + later.nanos as i128;
    let difference: i128 = to - from;
    let whole: i128 = if difference < 0 {
        -((-difference) / 1_000_000_000)
    } else {
        difference / 1_000_000_000
    };
    whole as i64
}

/// `now` less a number of seconds.
pub fn seconds_before(now: Moment, seconds: i64) -> (result: Moment)
    requires
        now.ok(),
        FIRST_SECOND <= now.seconds - seconds <= LAST_SECOND,
    ensures
        result.ok(),
        result.seconds == now.seconds - seconds,
        result.nanos == now.nanos,
{
    Moment { seconds: now.seconds - seconds, nanos: now.nanos }
}

/// How long a window that opened at `oldest` still lasts: one second at least. A window that
/// nothing opened lasts as long as it can.
pub open spec fn remaining(oldest: Option<Moment>, now: Moment, window: i64) -> int {
    match oldest {
        Some(date) => {
            let left = window - elapsed(date, now);
            if left < 1 {
                1
            } else {
                left
            }
        },
        None => window as int,
    }
}

pub fn seconds_remaining(oldest: Option<Moment>, now: Moment, window: i64) -> (result: i64)
    requires
        now.ok(),
        oldest matches Some(date) ==> date.ok() && i64::MIN <= window - elapsed(date, now)
            <= i64::MAX,
    ensures
        result == remaining(oldest, now, window),
{
    match oldest {
        Some(date) => {
            let left: i64 = window - seconds_since(date, now);
            if left < 1 {
                1
            } else {
                left
            }
        },
        None => window,
    }
}

// ---------------------------------------------------------------------------
// Laws
// ---------------------------------------------------------------------------

/// The whole seconds between two moments never reach past them: from the earlier one, so many
/// seconds later is not after the later one, and one more would be.
pub proof fn law_elapsed_seconds_are_whole(earlier: Moment, later: Moment)
    ensures
        earlier.total() <= later.total() ==> earlier.total() + elapsed(earlier, later)
            * 1_000_000_000 <= later.total() < earlier.total() + (elapsed(earlier, later) + 1)
            * 1_000_000_000,
        elapsed(earlier, later) == -elapsed(later, earlier),
        elapsed(earlier, earlier) == 0,
{
}

/// A window that opened at some moment lasts one second at least and, seen from that moment, as long
/// as it can; what has passed of it is taken off, second by second.
pub proof fn law_windows_run_out(oldest: Moment, now: Moment, window: i64)
    requires
        window >= 1,
    ensures
        remaining(None, now, window) == window,
        remaining(Some(now), now, window) == window,
        remaining(Some(oldest), now, window) >= 1,
        oldest.total() <= now.total() ==> remaining(Some(oldest), now, window) <= window,
        elapsed(oldest, now) < window ==> remaining(Some(oldest), now, window) + elapsed(
            oldest,
            now,
        ) == window,
        elapsed(oldest, now) >= window ==> remaining(Some(oldest), now, window) == 1,
{
}

} // verus!

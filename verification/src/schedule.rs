//! When the downloader is looked after: once at start-up, then every day
//! at nine in the morning, local time.

use vstd::prelude::*;
use crate::journal::now_ms;

verus! {

/// The seconds of a day.
pub const DAY: u32 = 86400;

/// Nine in the morning, in seconds since midnight.
pub const NINE: u32 = 32400;

/// The seconds to wait until it is next nine in the morning, on a day
/// of 24 hours: until today's nine where it is still ahead, else until
/// tomorrow's.
pub open spec fn wait_until_nine(now: int) -> int {
    if now < NINE {
        NINE - now
    } else {
        DAY - now + NINE
    }
}

/// The seconds to wait from `now` (seconds since local midnight; a
/// count beyond a day is taken within the day) until the next run.
pub fn duration_until_next_9am_local(now: u32) -> (wait: u32)
    ensures
        wait == wait_until_nine(now as int % DAY as int),
        0 < wait <= DAY,
{
    let now = now % DAY;
    if now < NINE {
        NINE - now
    } else {
        DAY - now + NINE
    }
}

/// Calls `chrono::DateTime::from_timestamp_millis`, `with_timezone` with
/// `chrono::Local` and `num_seconds_from_midnight`: the seconds of the local
/// time of day at the instant `ms` milliseconds after the Unix epoch, which
/// chrono keeps within 0 and 86399; nothing where chrono cannot hold the
/// instant. Which time of day it is depends on the machine's time zone.
#[verifier::external_body]
pub(crate) fn local_seconds_at(ms: i64) -> (s: Option<u32>)
    ensures
        s matches Some(v) ==> v < 86400,
{
    match chrono::DateTime::<chrono::Utc>::from_timestamp_millis(ms) {
        Some(t) => Some(
            chrono::Timelike::num_seconds_from_midnight(&t.with_timezone(&chrono::Local)),
        ),
        None => None,
    }
}

/// The seconds to wait, from now, until the next run. An instant that is
/// out of the calendar's reach is taken for midnight.
pub fn wait_for_next_run() -> (wait: u32)
    ensures
        0 < wait <= DAY,
{
    let ms = now_ms();
    let now = if ms <= 0x7fff_ffff_ffff_ffffu64 {
        local_seconds_at(ms as i64)
    } else {
        None
    };
    match now {
        Some(s) => duration_until_next_9am_local(s),
        None => duration_until_next_9am_local(0),
    }
}

/// Whether the downloader is installed anew after a check: only where
/// the check says that an update is due.
pub fn update_ytdlp(needs_update: bool) -> (install: bool)
    ensures
        install == needs_update,
{
    needs_update
}

} // verus!

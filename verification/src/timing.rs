//! Time in the polling cycle: how long to sleep between polls, how many
//! days lie between a stored timestamp and now, and when the episode totals
//! are refreshed.
use vstd::prelude::*;

verus! {

/// How long to sleep after a poll that took `elapsed` seconds: the interval
/// (at least one minute) less the time spent, but never under 30 seconds.
pub open spec fn spec_poll_wait(interval_min: i64, elapsed: u64) -> int {
    let m: int = if interval_min < 1 { 1 } else { interval_min as int };
    let w: int = if m * 60 > elapsed { m * 60 - elapsed } else { 0 };
    if w < 30 { 30 } else { w }
}

pub fn poll_wait_secs(interval_min: i64, elapsed: u64) -> (r: u64)
    requires
        interval_min * 60 <= u64::MAX,
    ensures
        r == spec_poll_wait(interval_min, elapsed),
{
    let m: u64 = if interval_min < 1 { 1 } else { interval_min as u64 };
    let w: u64 = (m * 60).saturating_sub(elapsed);
    if w < 30 { 30 } else { w }
}

/// Seconds since 1970-01-01 00:00:00 of a timestamp written
/// `%Y-%m-%d %H:%M:%S`, or none when it is not one.
pub uninterp spec fn spec_timestamp(ts: Seq<char>) -> Option<i64>;

/// `chrono::NaiveDateTime::parse_from_str` with the format
/// `%Y-%m-%d %H:%M:%S`, read as seconds since the epoch of the naive
/// calendar. The parse is a function of the text alone; what it accepts is
/// left to chrono and not stated here.
#[verifier::external_body]
fn parse_timestamp(ts: &str) -> (r: Option<i64>)
    ensures
        r == spec_timestamp(ts@),
{
    match chrono::NaiveDateTime::parse_from_str(ts, "%Y-%m-%d %H:%M:%S") {
        Ok(t) => Some(t.and_utc().timestamp()),
        Err(_) => None,
    }
}

/// Whole days in `d` seconds, rounded toward zero.
pub open spec fn whole_days(d: int) -> int {
    if d >= 0 {
        d / 86400
    } else {
        -((-d) / 86400)
    }
}

/// Whole days from the time `t` (seconds since the epoch, none when the
/// stored text was no timestamp) to `now`; 0 without a time.
pub open spec fn spec_days_between(t: Option<i64>, now: i64) -> int {
    match t {
        Some(t) => whole_days(now - t),
        None => 0,
    }
}

/// Whole days from the time `t` to `now`, rounded toward zero.
pub fn days_between(t: Option<i64>, now: i64) -> (r: i64)
    ensures
        r == spec_days_between(t, now),
{
    match t {
        Some(t) => {
            let d: i128 = now as i128 - t as i128;
            if d >= 0 {
                let q: i128 = d / 86400;
                q as i64
            } else {
                let q: i128 = (-d) / 86400;
                -(q as i64)
            }
        },
        None => 0,
    }
}

/// Whole days from the timestamp `ts` to `now` (seconds since the epoch),
/// or 0 when `ts` is not a timestamp.
pub open spec fn spec_days_since(ts: Seq<char>, now: i64) -> int {
    spec_days_between(spec_timestamp(ts), now)
}

pub fn days_since(ts: &str, now: i64) -> (r: i64)
    ensures
        r == spec_days_since(ts@, now),
{
    days_between(parse_timestamp(ts), now)
}

/// How often the episode totals are refreshed from Bangumi: every 12 hours.
pub const BGM_REFRESH_SECS: i64 = 43200;

/// The totals are refreshed when they never were, or when at least
/// `BGM_REFRESH_SECS` seconds have passed since the last refresh at `last`
/// (times in seconds since the epoch).
pub open spec fn spec_refresh_due(last: Option<i64>, now: i64) -> bool {
    match last {
        None => true,
        Some(t) => now - t >= BGM_REFRESH_SECS,
    }
}

pub fn refresh_due(last: Option<i64>, now: i64) -> (r: bool)
    ensures
        r == spec_refresh_due(last, now),
{
    match last {
        None => true,
        Some(t) => (now as i128) - (t as i128) >= BGM_REFRESH_SECS as i128,
    }
}

} // verus!

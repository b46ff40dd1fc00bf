//! The one place the library reads the machine clock, behind a trusted
//! wrapper, and the verified normalization of what it hands back.
use chrono::{Datelike, Timelike};
use vstd::prelude::*;

use crate::fix_date::FixDateTime;

verus! {

/// What the clock hands back, raw: calendar fields plus the microsecond
/// count since the epoch that subscription request ids use.
#[derive(Clone, Copy, PartialEq, Eq, Structural, Debug)]
pub struct RawClock {
    pub year: i64,
    pub month: u32,
    pub day: u32,
    pub hour: u32,
    pub minute: u32,
    pub second: u32,
    pub millisecond: u32,
    pub unix_micros: i64,
}

/// Relies on chrono's `Utc::now` and its accessors: `month` is 1 to 12,
/// `day` 1 to 31, `hour` below 24, `minute` and `second` below 60, and
/// `timestamp_subsec_millis` below 2000 (values of 1000 and above stand
/// for a leap second). The year and the microsecond count are unbounded
/// here and clamped by verified code.
#[verifier::external_body]
pub fn read_clock() -> (r: RawClock)
    ensures
        1 <= r.month <= 12,
        1 <= r.day <= 31,
        r.hour < 24,
        r.minute < 60,
        r.second < 60,
        r.millisecond < 2000,
{
    let now = chrono::Utc::now();
    RawClock {
        year: now.year() as i64,
        month: now.month(),
        day: now.day(),
        hour: now.hour(),
        minute: now.minute(),
        second: now.second(),
        millisecond: now.timestamp_subsec_millis(),
        unix_micros: now.timestamp_micros(),
    }
}

/// Clamps a raw clock reading into a well-formed timestamp: a year
/// outside 0 to 9999 is pinned to the nearer bound, and a leap-second
/// millisecond count is truncated to 999. In-range fields pass through
/// unchanged.
pub fn clock_to_fix(raw: &RawClock) -> (r: FixDateTime)
    requires
        1 <= raw.month <= 12,
        1 <= raw.day <= 31,
        raw.hour < 24,
        raw.minute < 60,
        raw.second < 60,
    ensures
        r.wf(),
        0 <= raw.year <= 9999 ==> r.year == raw.year,
        raw.millisecond <= 999 ==> r.millisecond == raw.millisecond,
        r.month == raw.month,
        r.day == raw.day,
        r.hour == raw.hour,
        r.minute == raw.minute,
        r.second == raw.second,
{
    let year: u32 = if raw.year < 0 {
        0
    } else if raw.year > 9999 {
        9999
    } else {
        raw.year as u32
    };
    let millisecond: u32 = if raw.millisecond > 999 {
        999
    } else {
        raw.millisecond
    };
    FixDateTime {
        year,
        month: raw.month,
        day: raw.day,
        hour: raw.hour,
        minute: raw.minute,
        second: raw.second,
        millisecond,
    }
}

/// The current instant as a well-formed timestamp.
pub fn now_fix() -> (r: FixDateTime)
    ensures
        r.wf(),
{
    let raw = read_clock();
    clock_to_fix(&raw)
}

/// The current instant for a subscription request id: the microsecond
/// count, with an out-of-range reading pinned to zero.
pub fn now_micros_id() -> u64 {
    let raw = read_clock();
    if raw.unix_micros < 0 {
        0
    } else {
        raw.unix_micros as u64
    }
}

} // verus!

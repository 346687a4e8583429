//! The wall clock, behind one trusted wrapper, and the verified rendering of
//! the station's `YYMMDDHHMMSS` timestamps.

use vstd::prelude::*;
use chrono::Datelike;
use chrono::Timelike;
use crate::digits::spec_fixed_digits;
use crate::digits::fixed_digits;

verus! {

/// One reading of the local wall clock, as plain calendar and epoch values.
#[derive(Clone, Copy, Debug)]
pub struct ClockReading {
    /// Calendar year (astronomical numbering, so it may lie outside 0..=9999).
    pub year: i32,
    /// Day of the year, starting from 1.
    pub ordinal: u32,
    /// Month, starting from 1.
    pub month: u32,
    /// Day of the month, starting from 1.
    pub day: u32,
    pub hour: u32,
    pub minute: u32,
    pub second: u32,
    /// Non-leap seconds since the Unix epoch.
    pub unix_seconds: i64,
}

/// A second count that chrono's documented date range (about +/- 262,000
/// years around the epoch) can produce; differences of two such counts never
/// overflow an `i64`.
pub open spec fn ts_in_range(t: i64) -> bool {
    -35184372088832 <= t <= 35184372088832
}

/// Relies on `chrono::Local::now` and the accessors `Datelike::year`,
/// `Datelike::ordinal` (1..=366 documented), `Datelike::month` (1..=12),
/// `Datelike::day` (1..=31), `Timelike::hour` (0..=23), `Timelike::minute`
/// (0..=59), `Timelike::second` (0..=59) and `DateTime::timestamp`, whose
/// magnitude chrono's supported date range keeps far below 2^45.
#[verifier::external_body]
pub(crate) fn read_clock() -> (r: ClockReading)
    ensures
        1 <= r.ordinal <= 366,
        1 <= r.month <= 12,
        1 <= r.day <= 31,
        r.hour <= 23,
        r.minute <= 59,
        r.second <= 59,
        ts_in_range(r.unix_seconds),
{
    let t = chrono::Local::now();
    ClockReading {
        year: t.year(),
        ordinal: t.ordinal(),
        month: t.month(),
        day: t.day(),
        hour: t.hour(),
        minute: t.minute(),
        second: t.second(),
        unix_seconds: t.timestamp(),
    }
}

/// Whether a reading can be rendered with a four-digit year, which both the
/// identifier and the timestamp grammar assume.
pub open spec fn clock_formattable(c: ClockReading) -> bool {
    0 <= c.year <= 9999 && 1 <= c.ordinal <= 366 && 1 <= c.month <= 12 && 1 <= c.day <= 31
        && c.hour <= 23 && c.minute <= 59 && c.second <= 59 && ts_in_range(c.unix_seconds)
}

/// Runtime check for `clock_formattable`.
pub fn clock_formattable_exec(c: &ClockReading) -> (r: bool)
    ensures
        r == clock_formattable(*c),
{
    0 <= c.year && c.year <= 9999 && 1 <= c.ordinal && c.ordinal <= 366 && 1 <= c.month
        && c.month <= 12 && 1 <= c.day && c.day <= 31 && c.hour <= 23 && c.minute <= 59
        && c.second <= 59 && -35184372088832 <= c.unix_seconds && c.unix_seconds
        <= 35184372088832
}

/// The `YYMMDDHHMMSS` timestamp: two digits each of year, month, day, hour,
/// minute and second, concatenated with no separators.
pub open spec fn spec_timestamp(c: ClockReading) -> Seq<char> {
    spec_fixed_digits((c.year % 100) as nat, 2) + spec_fixed_digits(c.month as nat, 2)
        + spec_fixed_digits(c.day as nat, 2) + spec_fixed_digits(c.hour as nat, 2)
        + spec_fixed_digits(c.minute as nat, 2) + spec_fixed_digits(c.second as nat, 2)
}

/// Render a clock reading as `YYMMDDHHMMSS`.
pub fn format_timestamp(c: &ClockReading) -> (s: String)
    requires
        clock_formattable(*c),
    ensures
        s@ == spec_timestamp(*c),
{
    let mut s = fixed_digits((c.year % 100) as u64, 2);
    let part = fixed_digits(c.month as u64, 2);
    s.append(part.as_str());
    let part = fixed_digits(c.day as u64, 2);
    s.append(part.as_str());
    let part = fixed_digits(c.hour as u64, 2);
    s.append(part.as_str());
    let part = fixed_digits(c.minute as u64, 2);
    s.append(part.as_str());
    let part = fixed_digits(c.second as u64, 2);
    s.append(part.as_str());
    proof {
        assert(s@ =~= spec_timestamp(*c));
    }
    s
}

} // verus!

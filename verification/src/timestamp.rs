//! The time stamp of a record: the instant that its seconds and microseconds
//! name, and the text of that instant.
//!
//! The calendar is chrono's. This module turns the pair into the seconds and
//! nanoseconds that chrono takes, and names the text that chrono gives back.

use chrono::TimeZone;
use vstd::prelude::*;

verus! {

/// Microseconds in a second.
pub const MICROS_PER_SECOND: i64 = 1_000_000;

/// Seconds on either side of the epoch that this module hands to chrono:
/// twice what the seconds of a record can hold, which leaves room for what
/// the microseconds carry, and far less than chrono's calendar spans.
pub const CALENDAR_RANGE: i64 = 8_589_934_592;

/// The pattern of the time in the console table: day, month name and year,
/// then hour and minute.
pub const CLOCK_PATTERN: &'static str = "%v %R";

/// Microseconds from the epoch to the instant that the pair names.
pub open spec fn total_micros(secs: int, micros: int) -> int {
    secs * 1_000_000 + micros
}

/// Whole seconds from the epoch to the instant that the pair names, rounded
/// towards the past.
pub open spec fn instant_seconds(secs: int, micros: int) -> int {
    total_micros(secs, micros) / 1_000_000
}

/// Nanoseconds from the whole second to the instant that the pair names.
pub open spec fn instant_nanos(secs: int, micros: int) -> int {
    (total_micros(secs, micros) % 1_000_000) * 1000
}

/// The text of chrono's `DateTime::to_rfc3339` for the instant `secs` seconds
/// and `nanos` nanoseconds after the epoch, in UTC.
pub uninterp spec fn rfc3339_text(secs: int, nanos: int) -> Seq<char>;

/// The text of chrono's `DateTime::format` with the given pattern for the
/// instant `secs` seconds and `nanos` nanoseconds after the epoch, in UTC.
pub uninterp spec fn pattern_text(secs: int, nanos: int, pattern: Seq<char>) -> Seq<char>;

/// Seconds and nanoseconds name the same instant as the pair, and the
/// nanoseconds stay below one second.
pub proof fn lemma_instant(secs: int, micros: int)
    ensures
        0 <= instant_nanos(secs, micros) < 1_000_000_000,
        instant_nanos(secs, micros) % 1000 == 0,
        instant_seconds(secs, micros) * 1_000_000_000 + instant_nanos(secs, micros) == 1000
            * total_micros(secs, micros),
{
    let t = total_micros(secs, micros);
    assert(t == 1_000_000 * (t / 1_000_000) + t % 1_000_000) by (nonlinear_arith);
    assert(0 <= t % 1_000_000 < 1_000_000) by (nonlinear_arith);
}

/// Where the microseconds are those of a clock, from 0 to 999 999, the
/// instant keeps the seconds of the pair: the text is written for the very
/// seconds that the record holds, and reads back as them.
pub proof fn law_instant_keeps_seconds(secs: int, micros: int)
    requires
        0 <= micros < 1_000_000,
    ensures
        instant_seconds(secs, micros) == secs,
        instant_nanos(secs, micros) == micros * 1000,
{
    let t = total_micros(secs, micros);
    assert(t / 1_000_000 == secs && t % 1_000_000 == micros) by (nonlinear_arith)
        requires
            t == secs * 1_000_000 + micros,
            0 <= micros < 1_000_000,
    ;
}

/// Calls chrono's `TimeZone::timestamp` on `UTC` and `DateTime::to_rfc3339` on
/// what it returns. The first panics on a time outside chrono's calendar and
/// on two billion nanoseconds or more, which `requires` leaves out. What the
/// text is, is not stated: it is given the name `rfc3339_text`.
#[verifier::external_body]
fn utc_rfc3339(secs: i64, nanos: u32) -> (s: String)
    requires
        -CALENDAR_RANGE <= secs <= CALENDAR_RANGE,
        nanos < 1_000_000_000,
    ensures
        s@ == rfc3339_text(secs as int, nanos as int),
{
    chrono::UTC.timestamp(secs, nanos).to_rfc3339()
}

/// Calls chrono's `TimeZone::timestamp` on `UTC` and `DateTime::format` on
/// what it returns, and takes the text of the result. The first panics on a
/// time outside chrono's calendar and on two billion nanoseconds or more,
/// the last on a pattern that chrono does not know: `requires` leaves them
/// out. What the text is, is not stated: it is given the name
/// `pattern_text`.
#[verifier::external_body]
fn utc_format(secs: i64, nanos: u32, pattern: &str) -> (s: String)
    requires
        -CALENDAR_RANGE <= secs <= CALENDAR_RANGE,
        nanos < 1_000_000_000,
        pattern@ == CLOCK_PATTERN@,
    ensures
        s@ == pattern_text(secs as int, nanos as int, pattern@),
{
    chrono::UTC.timestamp(secs, nanos).format(pattern).to_string()
}

/// The instant that the pair names, as whole seconds and nanoseconds. The
/// seconds count from the epoch and have no sign; the microseconds have one.
pub fn instant(secs: u32, micros: i32) -> (r: (i64, u32))
    ensures
        r.0 == instant_seconds(secs as int, micros as int),
        r.1 == instant_nanos(secs as int, micros as int),
        -CALENDAR_RANGE <= r.0 <= CALENDAR_RANGE,
        r.1 < 1_000_000_000,
{
    let total: i64 = (secs as i64) * MICROS_PER_SECOND + (micros as i64);
    proof {
        lemma_instant(secs as int, micros as int);
        let t = total as int;
        assert(-3_000 <= t / 1_000_000 <= 5_000_000_000) by (nonlinear_arith)
            requires
                -2_147_483_648 <= t <= 4_294_967_295 * 1_000_000 + 2_147_483_647,
        ;
    }
    let whole = total.checked_div_euclid(MICROS_PER_SECOND);
    let part = total.checked_rem_euclid(MICROS_PER_SECOND);
    let nanos: i64 = part.unwrap() * 1000;
    (whole.unwrap(), nanos as u32)
}

/// The RFC 3339 text, in UTC, of the instant that the seconds and
/// microseconds of a record name.
pub fn timestamp_text(secs: u32, micros: i32) -> (s: String)
    ensures
        s@ == rfc3339_text(
            instant_seconds(secs as int, micros as int),
            instant_nanos(secs as int, micros as int),
        ),
{
    let (whole, nanos) = instant(secs, micros);
    utc_rfc3339(whole, nanos)
}

/// The time of the console table for the whole second `epoch`: day, month
/// name and year, then hour and minute.
pub fn clock_text(epoch: u32) -> (s: String)
    ensures
        s@ == pattern_text(epoch as int, 0, CLOCK_PATTERN@),
{
    utc_format(epoch as i64, 0, CLOCK_PATTERN)
}

} // verus!

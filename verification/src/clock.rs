//! The clocks the monitor reads. What they return depends on the moment and
//! on the machine's time zone, so nothing is stated of it.

use std::time::Duration;
use std::time::Instant;
use chrono::TimeZone;
use vstd::prelude::*;

verus! {

/// The monotonic clock's moments, `std::time::Instant`, as opaque values.
#[verifier::external_type_specification]
#[verifier::external_body]
pub struct ExInstant(std::time::Instant);

/// `Instant::now`: the current moment of the monotonic clock. Nothing is
/// stated of it.
pub assume_specification[ std::time::Instant::now ]() -> (r: Instant);

/// `Instant::elapsed`: the time since the given moment. Nothing is stated of it.
pub assume_specification[ std::time::Instant::elapsed ](this: &Instant) -> (r: Duration);

/// `Duration::as_secs`: the whole seconds of a duration. `Duration` is opaque
/// here, so nothing is stated of the number.
pub assume_specification[ core::time::Duration::as_secs ](this: &Duration) -> (r: u64);

/// Month, day and time of day: `MM-DD hh:mm:ss`.
pub open spec fn month_day_time_format() -> Seq<char> {
    "%m-%d %H:%M:%S"@
}

/// Time of day: `hh:mm:ss`.
pub open spec fn time_of_day_format() -> Seq<char> {
    "%H:%M:%S"@
}

/// The formats in which the monitor shows times.
pub open spec fn is_time_format(fmt: Seq<char>) -> bool {
    fmt == month_day_time_format() || fmt == time_of_day_format()
}

/// An ASCII decimal digit.
pub open spec fn is_ascii_digit(c: char) -> bool {
    '0' <= c && c <= '9'
}

/// `t` has the shape `MM-DD hh:mm:ss`: two-digit fields with their separators.
pub open spec fn is_month_day_time_text(t: Seq<char>) -> bool {
    &&& t.len() == 14
    &&& t[2] == '-' && t[5] == ' ' && t[8] == ':' && t[11] == ':'
    &&& forall|i: int|
        0 <= i < 14 && i != 2 && i != 5 && i != 8 && i != 11 ==> is_ascii_digit(#[trigger] t[i])
}

/// `t` has the shape `hh:mm:ss`: two-digit fields with their separators.
pub open spec fn is_time_of_day_text(t: Seq<char>) -> bool {
    &&& t.len() == 8
    &&& t[2] == ':' && t[5] == ':'
    &&& forall|i: int| 0 <= i < 8 && i != 2 && i != 5 ==> is_ascii_digit(#[trigger] t[i])
}

/// The earliest timestamp chrono surely formats: the start of the year 1.
pub open spec fn min_formatted_timestamp() -> i64 {
    -62135596800i64
}

/// The latest timestamp chrono surely formats: the end of the year 9999.
pub open spec fn max_formatted_timestamp() -> i64 {
    253402300799
}

/// Wraps `chrono::Local::now` and `DateTime::timestamp`: the current
/// wall-clock time in whole seconds since the Unix epoch. It depends on the
/// clock, so nothing is stated of it.
#[verifier::external_body]
pub(crate) fn unix_now() -> (t: i64) {
    chrono::Local::now().timestamp()
}

/// A timestamp in the years 1 to 9999, which chrono always formats.
pub open spec fn in_formatted_range(ts: i64) -> bool {
    min_formatted_timestamp() <= ts <= max_formatted_timestamp()
}

/// A UTC offset in seconds that chrono's `FixedOffset` accepts: strictly
/// within a day.
pub open spec fn is_utc_offset(off: i32) -> bool {
    -86400 < off < 86400
}

/// A name for what chrono writes for timestamp `ts` (seconds since the Unix
/// epoch) in the time zone `off` seconds east of UTC, in format `fmt`
/// (`DateTime::from_timestamp`, `with_timezone` on a `FixedOffset`, `format`);
/// `None` where chrono has no such time.
pub uninterp spec fn fixed_offset_time(ts: i64, off: i32, fmt: Seq<char>) -> Option<Seq<char>>;

/// Wraps `chrono::DateTime::from_timestamp` and `Local`'s
/// `TimeZone::offset_from_utc_datetime` with `FixedOffset::local_minus_utc`:
/// the machine's UTC offset, in seconds east of UTC, at timestamp `ts`;
/// `None` where chrono has no such time. Stated: a `FixedOffset` is always
/// strictly within a day, and every timestamp of the years 1 to 9999 has an
/// offset. Which offset depends on the machine's time zone and is not stated.
#[verifier::external_body]
pub(crate) fn local_offset_secs(ts: i64) -> (r: Option<i32>)
    ensures
        r matches Some(off) ==> is_utc_offset(off),
        in_formatted_range(ts) ==> r is Some,
{
    match chrono::DateTime::from_timestamp(ts, 0) {
        Some(dt) => Some(chrono::Local.offset_from_utc_datetime(&dt.naive_utc()).local_minus_utc()),
        None => None,
    }
}

/// Wraps `chrono::DateTime::from_timestamp`, `FixedOffset::east_opt`,
/// `DateTime::with_timezone` and `DateTime::format`: timestamp `ts` as the
/// time zone `off` seconds east of UTC writes it in format `fmt`. The result
/// is a function of the arguments alone, named `fixed_offset_time`.
/// `requires` admits only offsets that `east_opt` accepts and formats that
/// chrono writes without error. Stated as well: chrono's `%m %d %H %M %S` are
/// zero-padded two-digit fields, so the text has the format's shape; and
/// every timestamp of the years 1 to 9999 is written.
#[verifier::external_body]
pub(crate) fn fixed_offset_time_text(ts: i64, off: i32, fmt: &str) -> (r: Option<String>)
    requires
        is_time_format(fmt@),
        is_utc_offset(off),
    ensures
        (r is Some) == (fixed_offset_time(ts, off, fmt@) is Some),
        r matches Some(t) ==> fixed_offset_time(ts, off, fmt@) == Some(t@),
        r matches Some(t) ==> (fmt@ == month_day_time_format() ==> is_month_day_time_text(t@)),
        r matches Some(t) ==> (fmt@ == time_of_day_format() ==> is_time_of_day_text(t@)),
        in_formatted_range(ts) ==> r is Some,
{
    match (chrono::DateTime::from_timestamp(ts, 0), chrono::FixedOffset::east_opt(off)) {
        (Some(dt), Some(tz)) => Some(dt.with_timezone(&tz).format(fmt).to_string()),
        _ => None,
    }
}

} // verus!

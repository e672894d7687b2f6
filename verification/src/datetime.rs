//! Calendar conversions, done by the `fasttime` crate.
//!
//! The module's own logic works on plain field values (year, month, day,
//! hour, minute, second); what only the calendar library computes — the Unix
//! timestamp of a civil date, and the ISO-8601 rendering of a timestamp — is
//! reached through the trusted items here.

use vstd::prelude::*;

verus! {

/// Truncating division, as the machine's signed division rounds: toward
/// zero.
pub open spec fn div_trunc(a: int, b: int) -> int
    recommends
        b > 0,
{
    if a >= 0 {
        a / b
    } else {
        -((-a) / b)
    }
}

/// What fasttime's civil-to-Unix conversion returns for the given calendar
/// field values, in nanoseconds since the Unix epoch.  The result is a
/// function of the field values alone; out-of-range fields (a month of 0, an
/// hour of 99) still map to a definite number, as the conversion is plain
/// arithmetic on them.
pub uninterp spec fn civil_unix_nanos(
    year: int,
    month: int,
    day: int,
    hour: int,
    minute: int,
    second: int,
    nanosecond: int,
) -> int;

/// Relies on fasttime's `DateTime::unix_timestamp_nanos`: nanoseconds since
/// the Unix epoch for a calendar date and time of day, computed by pure
/// integer arithmetic from the field values, total for every input.
#[verifier::external_body]
pub fn unix_nanos_from_civil(
    year: i32,
    month: u8,
    day: u8,
    hour: u8,
    minute: u8,
    second: u8,
    nanosecond: u32,
) -> (r: i128)
    ensures
        r as int == civil_unix_nanos(
            year as int,
            month as int,
            day as int,
            hour as int,
            minute as int,
            second as int,
            nanosecond as int,
        ),
{
    let dt = fasttime::DateTime {
        date: fasttime::Date { year, month, day },
        time: fasttime::Time { hour, minute, second, nanosecond },
    };
    dt.unix_timestamp_nanos()
}

/// The millisecond timestamp the acquisition paths store for a civil date:
/// the nanosecond value brought down to milliseconds, truncated toward zero.
pub open spec fn civil_unix_millis(
    year: int,
    month: int,
    day: int,
    hour: int,
    minute: int,
    second: int,
    nanosecond: int,
) -> int {
    div_trunc(civil_unix_nanos(year, month, day, hour, minute, second, nanosecond), 1_000_000)
}

/// Milliseconds since the Unix epoch for the given calendar field values,
/// saturated to the `i64` range (every date within tens of millennia of the
/// epoch is far inside it).
pub fn unix_millis_from_civil(
    year: i32,
    month: u8,
    day: u8,
    hour: u8,
    minute: u8,
    second: u8,
    nanosecond: u32,
) -> (r: i64)
    ensures
        ({
            let m = civil_unix_millis(
                year as int,
                month as int,
                day as int,
                hour as int,
                minute as int,
                second as int,
                nanosecond as int,
            );
            r as int == if m > i64::MAX {
                i64::MAX as int
            } else if m < i64::MIN {
                i64::MIN as int
            } else {
                m
            }
        }),
{
    let nanos = unix_nanos_from_civil(year, month, day, hour, minute, second, nanosecond);
    let millis: i128 = nanos / 1_000_000;
    proof {
        let n = civil_unix_nanos(
            year as int,
            month as int,
            day as int,
            hour as int,
            minute as int,
            second as int,
            nanosecond as int,
        );
        if n >= 0 {
            assert(millis as int == div_trunc(n, 1_000_000));
        } else {
            assert(millis as int == div_trunc(n, 1_000_000));
        }
    }
    if millis > i64::MAX as i128 {
        i64::MAX
    } else if millis < i64::MIN as i128 {
        i64::MIN
    } else {
        millis as i64
    }
}

/// What fasttime renders for a timestamp: the ISO-8601 UTC text
/// (`YYYY-MM-DDTHH:MM:SS[.frac]Z`, fraction trimmed of trailing zeros), or
/// nothing where the library reports the timestamp out of its range.  Both
/// the text and whether one exists are functions of the two arguments alone.
pub uninterp spec fn iso_datetime_of(secs: int, nanos: int) -> Option<Seq<char>>;

/// Relies on fasttime's `DateTime::from_unix_timestamp` and the `Display`
/// rendering of the result: the ISO-8601 UTC text of the timestamp; `None`
/// exactly where the library reports the timestamp out of range.
#[verifier::external_body]
pub fn format_unix_datetime(secs: i64, nanos: i32) -> (r: Option<String>)
    ensures
        r is Some <==> iso_datetime_of(secs as int, nanos as int) is Some,
        r matches Some(s) ==> Some(s@) == iso_datetime_of(secs as int, nanos as int),
{
    match fasttime::DateTime::from_unix_timestamp(secs, nanos) {
        Ok(dt) => Some(format!("{}", dt)),
        Err(_) => None,
    }
}

} // verus!

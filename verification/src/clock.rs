use vstd::prelude::*;
use crate::scheduler::LocalTime;
use chrono::{Datelike, Timelike};

verus! {

/// The first day chrono can represent (January 1 of year -262143), counted as
/// `num_days_from_ce` counts it.
pub const MIN_DAY: i32 = -95746129;

/// The last day chrono can represent (December 31 of year 262142).
pub const MAX_DAY: i32 = 95745399;

/// The last day whose year has four digits (December 31 of year 9999).
pub const LAST_FOUR_DIGIT_DAY: i32 = 3652059;

/// The earliest instant, in seconds since the Unix epoch, that an RFC 3339 timestamp
/// read by chrono can name: January 1 of year 0, a day before the offset.
pub const RFC3339_MIN_SECS: i64 = -62167305600;

/// The latest such instant: December 31 of year 9999, a day after the offset.
pub const RFC3339_MAX_SECS: i64 = 253402387199;

/// Whether `day` is a date chrono can represent.
pub open spec fn valid_day(day: int) -> bool {
    MIN_DAY <= day <= MAX_DAY
}

/// The date that chrono reads from `text` with the pattern `%Y-%m-%d`, as a day number.
pub uninterp spec fn parsed_ymd(text: Seq<char>) -> Option<int>;

/// The day of the month (1 for the first) of the date numbered `day`.
pub uninterp spec fn day_of_month_of(day: int) -> int;

/// The text chrono writes for the local date and time (`day`, `hour`, `minute`,
/// `second`) with the format `pattern`.
pub uninterp spec fn formatted_local(day: int, hour: int, minute: int, second: int, pattern: Seq<char>) -> Seq<char>;

/// The format patterns this library hands to chrono.
pub open spec fn known_pattern(p: Seq<char>) -> bool {
    ||| p == "%Y-%m-%d"@
    ||| p == "%Y%m%dT%H%M%S"@
    ||| p == "%d/%m"@
    ||| p == "%d/%m/%Y"@
    ||| p == "%H:%M"@
}

/// The current local date and time, from `chrono::Local::now`. Nothing is claimed of
/// which moment it is; the fields are in their ranges and the day is one that chrono
/// represents.
#[verifier::external_body]
pub(crate) fn local_now() -> (r: LocalTime)
    ensures
        r.wf(),
        valid_day(r.day as int),
{
    let now = chrono::Local::now();
    LocalTime {
        day: now.date_naive().num_days_from_ce(),
        hour: now.hour(),
        minute: now.minute(),
        second: now.second(),
    }
}

/// `chrono::NaiveDate::parse_from_str(text, "%Y-%m-%d")`, as a day number. The result
/// is named; a date chrono returns is one it represents.
#[verifier::external_body]
pub(crate) fn parse_ymd(text: &str) -> (r: Option<i32>)
    ensures
        match r {
            Some(d) => parsed_ymd(text@) == Some(d as int) && valid_day(d as int),
            None => parsed_ymd(text@) is None,
        },
{
    match chrono::NaiveDate::parse_from_str(text, "%Y-%m-%d") {
        Ok(d) => Some(d.num_days_from_ce()),
        Err(_) => None,
    }
}

/// `Datelike::day` of the date numbered `day`: the day of the month, from 1 to 31 as
/// chrono documents it. The first of that month is a date chrono represents too, as
/// its earliest date is a January 1.
#[verifier::external_body]
pub(crate) fn day_of_month(day: i32) -> (r: u32)
    requires
        valid_day(day as int),
    ensures
        r as int == day_of_month_of(day as int),
        1 <= r <= 31,
        valid_day(day - r + 1),
{
    match chrono::NaiveDate::from_num_days_from_ce_opt(day) {
        Some(d) => d.day(),
        None => 1,
    }
}

/// `NaiveDateTime::format(pattern).to_string()` for the local date and time `t`. The
/// text is named. For a date in a year of four digits, chrono reads back with
/// `%Y-%m-%d` the date it wrote with that pattern.
#[verifier::external_body]
pub(crate) fn format_local(t: LocalTime, pattern: &str) -> (r: String)
    requires
        t.wf(),
        valid_day(t.day as int),
        known_pattern(pattern@),
    ensures
        r@ == formatted_local(t.day as int, t.hour as int, t.minute as int, t.second as int, pattern@),
        pattern@ == "%Y-%m-%d"@ && 1 <= t.day <= LAST_FOUR_DIGIT_DAY ==> parsed_ymd(r@) == Some(
            t.day as int,
        ),
{
    match chrono::NaiveDate::from_num_days_from_ce_opt(t.day) {
        Some(d) => match d.and_hms_opt(t.hour, t.minute, t.second) {
            Some(dt) => dt.format(pattern).to_string(),
            None => String::new(),
        },
        None => String::new(),
    }
}

/// The instant an RFC 3339 timestamp names, in seconds since the Unix epoch.
pub uninterp spec fn rfc3339_instant(text: Seq<char>) -> Option<int>;

/// `DateTime::parse_from_rfc3339(text)`, as seconds since the Unix epoch. The result
/// is named. chrono reads a year of four digits and an offset under a day, so the
/// instant read lies between `RFC3339_MIN_SECS` and `RFC3339_MAX_SECS`.
#[verifier::external_body]
pub(crate) fn parse_rfc3339(text: &str) -> (r: Option<i64>)
    ensures
        match r {
            Some(s) => rfc3339_instant(text@) == Some(s as int),
            None => rfc3339_instant(text@) is None,
        },
        r matches Some(s) ==> RFC3339_MIN_SECS <= s <= RFC3339_MAX_SECS,
{
    match chrono::DateTime::parse_from_rfc3339(text) {
        Ok(t) => Some(t.timestamp()),
        Err(_) => None,
    }
}

/// The day number (as `num_days_from_ce` counts) of January 1, 1970.
pub const UNIX_EPOCH_DAY: i64 = 719163;

/// Seconds since the start of day 0 of the instant `secs` (seconds since the Unix
/// epoch), read in UTC.
pub open spec fn utc_seconds(secs: int) -> int {
    secs + UNIX_EPOCH_DAY * 86400
}

/// `t` is the local time of the instant `secs` in some time zone: the UTC time of
/// `secs` shifted by an offset of less than a day.
pub open spec fn local_time_of(t: LocalTime, secs: int) -> bool {
    &&& t.wf()
    &&& valid_day(t.day as int)
    &&& utc_seconds(secs) - 86400 < t.seconds() < utc_seconds(secs) + 86400
}

/// `DateTime::from_timestamp(secs, 0)` seen in the machine's time zone
/// (`with_timezone(&Local)`). `from_timestamp` gives a time for every instant whose
/// date chrono represents, which includes every instant an RFC 3339 timestamp names.
/// The zone is the machine's, so which offset applies is not claimed: the local time
/// is the UTC time shifted by some offset of less than a day (chrono's offsets are).
#[verifier::external_body]
pub(crate) fn local_time_at(secs: i64) -> (r: LocalTime)
    requires
        RFC3339_MIN_SECS <= secs <= RFC3339_MAX_SECS,
    ensures
        local_time_of(r, secs as int),
{
    let u = chrono::DateTime::from_timestamp(secs, 0).unwrap_or_default();
    let l = u.with_timezone(&chrono::Local);
    LocalTime {
        day: l.date_naive().num_days_from_ce(),
        hour: l.hour(),
        minute: l.minute(),
        second: l.second(),
    }
}

} // verus!

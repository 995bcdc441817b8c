//! Time as the store sees it: whole seconds since the Unix epoch in UTC, the
//! calendar day such an instant falls on, and its display text.

use vstd::prelude::*;

verus! {

/// Seconds in one UTC calendar day.
pub const SECONDS_PER_DAY: i64 = 86_400;

/// The last second of the year 9999, the latest instant whose display text
/// has a four-digit year.
pub const MAX_TIMESTAMP: i64 = 253_402_300_799;

/// The instants the store accepts: from the epoch to the end of the year 9999.
pub open spec fn valid_time(t: int) -> bool {
    0 <= t <= MAX_TIMESTAMP
}

/// The number of the UTC calendar day that holds instant `t`, counted from
/// the epoch's day.
pub open spec fn day_of(t: int) -> int {
    t / 86_400
}

/// The pattern of the display text of an instant, which gives
/// `YYYY-MM-DD HH:MM:SS UTC`.
pub open spec fn display_pattern() -> Seq<char> {
    "%Y-%m-%d %H:%M:%S UTC"@
}

/// The pattern of an instant written without a zone, which gives
/// `YYYY-MM-DD HH:MM:SS`.
pub open spec fn plain_pattern() -> Seq<char> {
    "%Y-%m-%d %H:%M:%S"@
}

/// The text of the instant `secs` under the pattern `pattern`, as the
/// calendar library writes it.
pub uninterp spec fn utc_text(secs: int, pattern: Seq<char>) -> Seq<char>;

/// The instant that the text `text` gives under the pattern `pattern`, as
/// the calendar library reads it; none where the text does not fit.
pub uninterp spec fn parsed_instant(text: Seq<char>, pattern: Seq<char>) -> Option<i64>;

/// Calls `chrono::DateTime::from_timestamp` and `DateTime::format`. The
/// contract only gives the text its name. For the instants admitted here the
/// constructor returns a value, so the fallback is never taken; the pattern
/// is held to the display pattern, which the library can always write.
#[verifier::external_body]
pub(crate) fn format_utc(secs: i64, pattern: &str) -> (s: String)
    requires
        valid_time(secs as int),
        pattern@ == display_pattern(),
    ensures
        s@ == utc_text(secs as int, pattern@),
{
    chrono::DateTime::from_timestamp(secs, 0).unwrap_or_default().format(pattern).to_string()
}

/// Calls `chrono::NaiveDateTime::parse_from_str` and reads the result as an
/// instant in UTC. The contract only gives the outcome its name.
#[verifier::external_body]
pub(crate) fn parse_utc(text: &str, pattern: &str) -> (r: Option<i64>)
    ensures
        r == parsed_instant(text@, pattern@),
{
    chrono::NaiveDateTime::parse_from_str(text, pattern).ok().map(|t| t.and_utc().timestamp())
}

/// The calendar day of `t`, rounding toward earlier days for instants before
/// the epoch.
pub fn day_number(t: i64) -> (d: i64)
    ensures
        d == day_of(t as int),
{
    if t >= 0 {
        t / SECONDS_PER_DAY
    } else {
        let back: i64 = -1 - t;
        -1 - back / SECONDS_PER_DAY
    }
}

/// The display text of `secs`, or `None` for an instant the store does not
/// accept.
pub fn timestamp_text(secs: i64) -> (r: Option<String>)
    ensures
        r is Some <==> valid_time(secs as int),
        r matches Some(s) ==> s@ == utc_text(secs as int, display_pattern()),
{
    if 0 <= secs && secs <= MAX_TIMESTAMP {
        Some(format_utc(secs, "%Y-%m-%d %H:%M:%S UTC"))
    } else {
        None
    }
}

/// The instant that a stored text gives, whichever of two readings came
/// first.
pub open spec fn chosen_instant(with_zone: Option<i64>, plain: Option<i64>) -> Option<i64> {
    match with_zone {
        Some(t) => Some(t),
        None => plain,
    }
}

/// Picks the instant of a stored text from its two readings: the one under
/// the display pattern where there is one, else the one under the plain
/// pattern.
pub fn choose_instant(with_zone: Option<i64>, plain: Option<i64>) -> (r: Option<i64>)
    ensures
        r == chosen_instant(with_zone, plain),
{
    match with_zone {
        Some(t) => Some(t),
        None => plain,
    }
}

/// The instant that the stored text `text` stands for: read under the
/// display pattern, and under the plain pattern where that fails.
pub fn stored_instant(text: &str) -> (r: Option<i64>)
    ensures
        r == chosen_instant(
            parsed_instant(text@, display_pattern()),
            parsed_instant(text@, plain_pattern()),
        ),
{
    let with_zone = parse_utc(text, "%Y-%m-%d %H:%M:%S UTC");
    let plain = parse_utc(text, "%Y-%m-%d %H:%M:%S");
    choose_instant(with_zone, plain)
}

} // verus!

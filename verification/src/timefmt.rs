//! Commit times as shown in the tables: Unix timestamps rendered in a fixed UTC
//! offset (JST), with the year left out when it is the current one.
use crate::text::{parse_i64_spec, trim_spec};
use vstd::prelude::*;

verus! {

/// Japan Standard Time, UTC+9, in seconds.
pub const JST_OFFSET_SECONDS: i32 = 32400;

/// Shown in place of a time that cannot be read.
pub const DATETIME_FETCH_FAILED: &'static str = "(取得失敗)";

/// Pattern for times in the current year: `MM/DD hh:mm`.
pub const SAME_YEAR_PATTERN: &'static str = "%m/%d %H:%M";

/// Pattern for times in another year: `YY/MM/DD hh:mm`.
pub const OTHER_YEAR_PATTERN: &'static str = "%y/%m/%d %H:%M";

/// The calendar year of `timestamp` at UTC offset `offset_seconds`, as chrono computes it.
pub uninterp spec fn local_year_of(timestamp: i64, offset_seconds: i32) -> Option<i32>;

/// Calls `chrono::FixedOffset::east_opt(offset_seconds)`, `chrono::DateTime::from_timestamp(timestamp, 0)`,
/// `DateTime::with_timezone` and `Datelike::year`.  The contract names the year and
/// states, from `east_opt`'s source, that an offset of a day or more gives `None`.
#[verifier::external_body]
pub(crate) fn local_year(timestamp: i64, offset_seconds: i32) -> (res: Option<i32>)
    ensures
        res == local_year_of(timestamp, offset_seconds),
        !(-86400 < offset_seconds < 86400) ==> res is None,
{
    let offset = chrono::FixedOffset::east_opt(offset_seconds)?;
    let utc = chrono::DateTime::from_timestamp(timestamp, 0)?;
    Some(chrono::Datelike::year(&utc.with_timezone(&offset)))
}

/// `timestamp` at UTC offset `offset_seconds` rendered with the strftime-style `pattern`,
/// as chrono renders it.
pub uninterp spec fn local_time_text(timestamp: i64, offset_seconds: i32, pattern: Seq<char>) -> Option<
    Seq<char>,
>;

/// Calls `chrono::FixedOffset::east_opt`, `chrono::DateTime::from_timestamp(timestamp, 0)`,
/// `DateTime::with_timezone` and `DateTime::format(pattern).to_string()` on one of the
/// two table patterns (others could make `to_string` panic).  The contract names the
/// text and states that it exists exactly when the year does: both come from the same
/// two fallible calls.
#[verifier::external_body]
pub(crate) fn format_local_time(timestamp: i64, offset_seconds: i32, pattern: &str) -> (res: Option<String>)
    requires
        pattern@ == SAME_YEAR_PATTERN@ || pattern@ == OTHER_YEAR_PATTERN@,
    ensures
        match res {
            Some(text) => local_time_text(timestamp, offset_seconds, pattern@) == Some(text@),
            None => local_time_text(timestamp, offset_seconds, pattern@) == None::<Seq<char>>,
        },
        res is Some <==> local_year_of(timestamp, offset_seconds) is Some,
{
    let offset = chrono::FixedOffset::east_opt(offset_seconds)?;
    let utc = chrono::DateTime::from_timestamp(timestamp, 0)?;
    Some(utc.with_timezone(&offset).format(pattern).to_string())
}

/// How a commit time `raw` (a Unix timestamp in text) is shown when the time is `now`,
/// both seen at UTC offset `offset_seconds`.
pub open spec fn display_time_spec(raw: Seq<char>, now: i64, offset_seconds: i32) -> Option<Seq<char>> {
    match parse_i64_spec(trim_spec(raw)) {
        None => None,
        Some(timestamp) => match (local_year_of(timestamp, offset_seconds), local_year_of(now, offset_seconds)) {
            (Some(year), Some(now_year)) => local_time_text(
                timestamp,
                offset_seconds,
                if year == now_year {
                    SAME_YEAR_PATTERN@
                } else {
                    OTHER_YEAR_PATTERN@
                },
            ),
            _ => None,
        },
    }
}

/// The text shown for a commit time: `display_time_spec`, or the failure marker.
pub open spec fn display_or_fallback_spec(raw: Seq<char>, now: i64) -> Seq<char> {
    match display_time_spec(raw, now, JST_OFFSET_SECONDS) {
        Some(text) => text,
        None => DATETIME_FETCH_FAILED@,
    }
}

/// Renders the commit time `raw` for the tables: `MM/DD hh:mm` when it falls in the same
/// year as `now_timestamp`, `YY/MM/DD hh:mm` otherwise; `None` when `raw` (trimmed) is
/// not a decimal `i64` or chrono cannot place it.
pub fn format_git_timestamp_for_display_with_now(
    timestamp_raw: &str,
    now_timestamp: i64,
    offset_seconds: i32,
) -> (res: Option<String>)
    ensures
        match res {
            Some(text) => display_time_spec(timestamp_raw@, now_timestamp, offset_seconds) == Some(
                text@,
            ),
            None => display_time_spec(timestamp_raw@, now_timestamp, offset_seconds) == None::<
                Seq<char>,
            >,
        },
{
    let trimmed = crate::text::trim(timestamp_raw);
    let timestamp = match crate::text::parse_i64(trimmed.as_str()) {
        Some(t) => t,
        None => {
            return None;
        },
    };
    let year = match local_year(timestamp, offset_seconds) {
        Some(y) => y,
        None => {
            return None;
        },
    };
    let now_year = match local_year(now_timestamp, offset_seconds) {
        Some(y) => y,
        None => {
            return None;
        },
    };
    if year == now_year {
        format_local_time(timestamp, offset_seconds, SAME_YEAR_PATTERN)
    } else {
        format_local_time(timestamp, offset_seconds, OTHER_YEAR_PATTERN)
    }
}

/// Renders the commit time `raw` in JST against `now_timestamp`, the caller's reading of
/// the clock in Unix seconds.
pub fn format_git_timestamp_for_display(timestamp_raw: &str, now_timestamp: i64) -> (res: Option<String>)
    ensures
        match res {
            Some(text) => display_time_spec(timestamp_raw@, now_timestamp, JST_OFFSET_SECONDS) == Some(
                text@,
            ),
            None => display_time_spec(timestamp_raw@, now_timestamp, JST_OFFSET_SECONDS) == None::<
                Seq<char>,
            >,
        },
{
    format_git_timestamp_for_display_with_now(timestamp_raw, now_timestamp, JST_OFFSET_SECONDS)
}

/// Renders the commit time `raw` in JST against `now_timestamp`, or the failure marker.
pub fn format_git_timestamp_or_fallback(timestamp_raw: &str, now_timestamp: i64) -> (res: String)
    ensures
        res@ == display_or_fallback_spec(timestamp_raw@, now_timestamp),
{
    match format_git_timestamp_for_display_with_now(timestamp_raw, now_timestamp, JST_OFFSET_SECONDS) {
        Some(text) => text,
        None => crate::text::owned(DATETIME_FETCH_FAILED),
    }
}

} // verus!

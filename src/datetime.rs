//! Commit times as the wiki shows them.
use vstd::prelude::*;

verus! {

/// What chrono writes for the UTC time `secs` seconds after the Unix epoch
/// under the strftime pattern `pattern`; nothing where chrono has no date
/// for `secs`.
pub uninterp spec fn utc_strftime(secs: int, pattern: Seq<char>) -> Option<Seq<char>>;

/// What chrono writes for the UTC time `secs` seconds after the Unix epoch
/// in RFC 3339 form; nothing where chrono has no date for `secs`.
pub uninterp spec fn utc_rfc3339(secs: int) -> Option<Seq<char>>;

/// The pattern of the `medium` style: date, hours and minutes.
pub open spec fn medium_pattern() -> Seq<char> {
    "%Y-%m-%d %H:%M"@
}

/// The pattern of the `full` style: date, hours, minutes and seconds.
pub open spec fn full_pattern() -> Seq<char> {
    "%Y-%m-%d %H:%M:%S"@
}

/// Relies on `chrono::DateTime::from_timestamp` and `DateTime::format`: the
/// UTC time `secs` under `pattern`. Only the two patterns the wiki uses are
/// taken, both of which chrono writes without failing.
#[verifier::external_body]
fn format_utc(secs: i64, pattern: &str) -> (r: Option<String>)
    requires
        pattern@ == medium_pattern() || pattern@ == full_pattern(),
    ensures
        r is Some <==> utc_strftime(secs as int, pattern@) is Some,
        r matches Some(s) ==> utc_strftime(secs as int, pattern@) == Some(s@),
{
    chrono::DateTime::from_timestamp(secs, 0).map(|dt| dt.format(pattern).to_string())
}

/// Relies on `chrono::DateTime::from_timestamp` and `DateTime::to_rfc3339`:
/// the UTC time `secs` in RFC 3339 form.
#[verifier::external_body]
fn rfc3339_utc(secs: i64) -> (r: Option<String>)
    ensures
        r is Some <==> utc_rfc3339(secs as int) is Some,
        r matches Some(s) ==> utc_rfc3339(secs as int) == Some(s@),
{
    chrono::DateTime::from_timestamp(secs, 0).map(|dt| dt.to_rfc3339())
}

/// The text of an optional time, empty where there is none.
pub open spec fn time_text(t: Option<Seq<char>>) -> Seq<char> {
    match t {
        Some(s) => s,
        None => Seq::empty(),
    }
}

/// The time `seconds` in the style `format`: `medium`, `full`, or RFC 3339
/// for any other style.
pub open spec fn formatted(seconds: int, format: Seq<char>) -> Seq<char> {
    if format == "medium"@ {
        time_text(utc_strftime(seconds, medium_pattern()))
    } else if format == "full"@ {
        time_text(utc_strftime(seconds, full_pattern()))
    } else {
        time_text(utc_rfc3339(seconds))
    }
}

/// The commit time `seconds` (UTC, since the Unix epoch) in the style
/// `format`: `medium` (`2024-05-01 13:45`), `full` (with seconds), or RFC
/// 3339 for any other; empty where the time has no date.
pub fn format_datetime(seconds: i64, format: &str) -> (r: String)
    ensures
        r@ == formatted(seconds as int, format@),
{
    let style = format.to_owned();
    let t = if style == "medium".to_owned() {
        format_utc(seconds, "%Y-%m-%d %H:%M")
    } else if style == "full".to_owned() {
        format_utc(seconds, "%Y-%m-%d %H:%M:%S")
    } else {
        rfc3339_utc(seconds)
    };
    match t {
        Some(s) => s,
        None => String::new(),
    }
}

} // verus!

//! Timestamps as plain UTC epoch seconds, together with the calendar
//! parsing and formatting that the chrono crates provide.

use vstd::prelude::*;

use chrono::TimeZone;

verus! {

/// The latest timestamp the pipeline's calendar formatting handles:
/// the last second of year 9999, UTC.
pub const MAX_STAMP: i64 = 253402300799;

/// A timestamp within the range the pipeline works over.
pub open spec fn valid_stamp(t: int) -> bool {
    0 <= t <= MAX_STAMP
}

/// What chrono's ISO-8601 parser yields for a character sequence:
/// UTC epoch seconds, or nothing when the text does not parse.
pub uninterp spec fn datetime_of(s: Seq<char>) -> Option<i64>;

/// Relies on chrono: `str::parse::<DateTime<Utc>>` (chrono's
/// `FromStr`) and `DateTime::timestamp`. The result depends on the
/// string alone.
#[verifier::external_body]
pub(crate) fn parse_datetime_utc(s: &str) -> (r: Option<i64>)
    ensures
        r == datetime_of(s@),
{
    match s.parse::<chrono::DateTime<chrono::Utc>>() {
        Ok(d) => Some(d.timestamp()),
        Err(_) => None,
    }
}

/// What a timestamp looks like formatted as `%Y-%m-%dT%H:%M:%S` local
/// to the Moscow time zone. chrono-tz ships its own time zone tables,
/// so the result depends on the timestamp alone.
pub uninterp spec fn moscow_str_of(t: i64) -> Seq<char>;

/// Relies on chrono `DateTime::from_timestamp` (defined on the whole
/// admitted range), chrono-tz's `Europe::Moscow` conversion, and
/// chrono's formatter.
#[verifier::external_body]
pub(crate) fn format_moscow(t: i64) -> (r: String)
    requires
        valid_stamp(t as int),
    ensures
        r@ == moscow_str_of(t),
{
    let dt = chrono::DateTime::from_timestamp(t, 0).unwrap();
    let local = chrono_tz::Europe::Moscow.from_utc_datetime(&dt.naive_utc());
    local.format("%Y-%m-%dT%H:%M:%S").to_string()
}

/// Relies on chrono `Utc::now`. Nothing is assumed of the clock's
/// value; callers clamp it into range themselves.
#[verifier::external_body]
pub(crate) fn utc_now() -> i64 {
    chrono::Utc::now().timestamp()
}

} // verus!

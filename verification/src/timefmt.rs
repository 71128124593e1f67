//! Date and time canonicalization, performed by the chrono crate behind
//! named results: each parse-and-render composition is a function of the
//! input characters alone, so its outcome carries a name that contracts
//! can speak of exactly.

use vstd::prelude::*;

verus! {

/// The canonical rendering of `s` read as a local date and time of the
/// form `YYYY-MM-DD HH:MM:SS`, when it parses.
pub uninterp spec fn timestamp_canon(s: Seq<char>) -> Option<Seq<char>>;

/// The canonical rendering of `s` read as a date and time with a zone
/// offset, `YYYY-MM-DD HH:MM:SS[.fraction] +HH:MM`, when it parses.
pub uninterp spec fn timestamptz_canon(s: Seq<char>) -> Option<Seq<char>>;

/// The canonical zoned rendering of an epoch-seconds count, in UTC, when
/// the count lies within the representable range of dates.
pub uninterp spec fn epoch_canon(secs: int) -> Option<Seq<char>>;

/// The canonical rendering of `s` read as a date of the form
/// `YYYY-MM-DD`, when it parses.
pub uninterp spec fn date_canon(s: Seq<char>) -> Option<Seq<char>>;

/// Relies on `chrono::NaiveDateTime::parse_from_str` with the pattern
/// `%Y-%m-%d %H:%M:%S`, and on the `Display` rendering of the value it
/// parsed: both depend on the characters of `raw` alone.
#[verifier::external_body]
pub(crate) fn chrono_timestamp_canon(raw: &str) -> (r: Option<String>)
    ensures
        (match r {
            Some(t) => timestamp_canon(raw@) == Some(t@),
            None => timestamp_canon(raw@) is None,
        }),
{
    match chrono::NaiveDateTime::parse_from_str(raw, "%Y-%m-%d %H:%M:%S") {
        Ok(dt) => Some(dt.to_string()),
        Err(_) => None,
    }
}

/// Relies on `chrono::DateTime::parse_from_str` with the pattern
/// `%Y-%m-%d %H:%M:%S%.f %:z`, and on rendering the parsed value through
/// the same pattern: both depend on the characters of `raw` alone.
#[verifier::external_body]
pub(crate) fn chrono_timestamptz_canon(raw: &str) -> (r: Option<String>)
    ensures
        (match r {
            Some(t) => timestamptz_canon(raw@) == Some(t@),
            None => timestamptz_canon(raw@) is None,
        }),
{
    match chrono::DateTime::parse_from_str(raw, "%Y-%m-%d %H:%M:%S%.f %:z") {
        Ok(dt) => Some(dt.format("%Y-%m-%d %H:%M:%S%.f %:z").to_string()),
        Err(_) => None,
    }
}

/// Relies on `chrono::DateTime::from_timestamp`, which is `Some` exactly
/// on the seconds counts whose date chrono can represent, and on
/// rendering the UTC value through the pattern `%Y-%m-%d %H:%M:%S%.f %:z`:
/// both depend on `secs` alone.
#[verifier::external_body]
pub(crate) fn chrono_epoch_canon(secs: i64) -> (r: Option<String>)
    ensures
        (match r {
            Some(t) => epoch_canon(secs as int) == Some(t@),
            None => epoch_canon(secs as int) is None,
        }),
{
    match chrono::DateTime::from_timestamp(secs, 0) {
        Some(dt) => Some(dt.format("%Y-%m-%d %H:%M:%S%.f %:z").to_string()),
        None => None,
    }
}

/// Relies on `chrono::NaiveDate::parse_from_str` with the pattern
/// `%Y-%m-%d`, and on the `Display` rendering of the value it parsed:
/// both depend on the characters of `raw` alone.
#[verifier::external_body]
pub(crate) fn chrono_date_canon(raw: &str) -> (r: Option<String>)
    ensures
        (match r {
            Some(t) => date_canon(raw@) == Some(t@),
            None => date_canon(raw@) is None,
        }),
{
    match chrono::NaiveDate::parse_from_str(raw, "%Y-%m-%d") {
        Ok(d) => Some(d.to_string()),
        Err(_) => None,
    }
}

} // verus!

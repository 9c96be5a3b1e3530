use crate::types::ExportError;
use vstd::prelude::*;

verus! {

/// The instant, in seconds since the epoch, that a `YYYY-MM-DDTHH:MMZ` text
/// denotes in UTC; `None` where the text is not of that shape.
pub uninterp spec fn minute_instant_of(s: Seq<char>) -> Option<int>;

/// Relies on chrono's `NaiveDateTime::parse_from_str` with the format
/// `%Y-%m-%dT%H:%MZ`, read as UTC, and `DateTime::timestamp`.
#[verifier::external_body]
fn parse_minute_instant(s: &str) -> (r: Option<i64>)
    ensures
        r is None <==> minute_instant_of(s@) is None,
        r matches Some(t) ==> minute_instant_of(s@) == Some(t as int),
{
    match chrono::NaiveDateTime::parse_from_str(s, "%Y-%m-%dT%H:%MZ") {
        Ok(d) => Some(d.and_utc().timestamp()),
        Err(_) => None,
    }
}

/// Reads a period start written as `YYYY-MM-DDTHH:MMZ`, seconds omitted.
pub fn deserialize(s: &str) -> (r: Result<i64, ExportError>)
    ensures
        r is Ok <==> minute_instant_of(s@) is Some,
        r matches Ok(t) ==> minute_instant_of(s@) == Some(t as int),
        r matches Err(e) ==> e matches ExportError::ParseFailed { input } && input@ == s@,
{
    match parse_minute_instant(s) {
        Some(t) => Ok(t),
        None => Err(ExportError::ParseFailed { input: s.to_owned() }),
    }
}

} // verus!

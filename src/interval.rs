use crate::types::ExportError;
use vstd::prelude::*;

verus! {

/// Seconds in a minute.
pub const MINUTE: i64 = 60;

/// Seconds in a day.
pub const DAY: i64 = 86400;

/// The interval widths a period can declare.
#[derive(Clone, Copy, Debug, PartialEq, Eq, Structural)]
pub enum Resolution {
    OneMinute,
    FifteenMinutes,
    SixtyMinutes,
    OneDay,
    SevenDays,
    OneMonth,
    /// Twelve calendar months, taken back from the start.
    OneYear,
}

/// The resolution a code denotes, if it is recognized.
pub open spec fn resolution_of(code: Seq<char>) -> Option<Resolution> {
    if code == "PT60M"@ {
        Some(Resolution::SixtyMinutes)
    } else if code == "PT15M"@ {
        Some(Resolution::FifteenMinutes)
    } else if code == "PT1M"@ {
        Some(Resolution::OneMinute)
    } else if code == "P1D"@ {
        Some(Resolution::OneDay)
    } else if code == "P7D"@ {
        Some(Resolution::SevenDays)
    } else if code == "P1M"@ {
        Some(Resolution::OneMonth)
    } else if code == "P1Y"@ {
        Some(Resolution::OneYear)
    } else {
        None
    }
}

/// The fixed width in seconds of a resolution that is not calendar-based.
pub open spec fn fixed_width(r: Resolution) -> int {
    match r {
        Resolution::OneMinute => 60,
        Resolution::FifteenMinutes => 900,
        Resolution::SixtyMinutes => 3600,
        Resolution::OneDay => 86400,
        Resolution::SevenDays => 604800,
        _ => 0,
    }
}

/// The instant (seconds since the epoch, UTC) that lies `n` calendar months
/// after `t`, clamped to the last day of a shorter month; `None` out of range.
pub uninterp spec fn months_after(t: int, n: int) -> Option<int>;

/// The instant that lies `n` calendar months before `t`, clamped to the last
/// day of a shorter month; `None` out of range.
pub uninterp spec fn months_before(t: int, n: int) -> Option<int>;

/// The end of the interval of resolution `r` that starts at `start`, or
/// `None` where it cannot be represented.
pub open spec fn end_of(start: int, r: Resolution) -> Option<int> {
    match r {
        Resolution::OneMonth => months_after(start, 1),
        Resolution::OneYear => months_before(start, 12),
        _ => if start + fixed_width(r) <= i64::MAX {
            Some(start + fixed_width(r))
        } else {
            None
        },
    }
}

/// Relies on chrono's `DateTime::<Utc>::from_timestamp` and
/// `DateTime::checked_add_months`: the same instant `n` months later, on the
/// last day of the month where the day does not exist, `None` out of range.
#[verifier::external_body]
fn add_months(t: i64, n: u32) -> (r: Option<i64>)
    ensures
        r is None <==> months_after(t as int, n as int) is None,
        r matches Some(e) ==> months_after(t as int, n as int) == Some(e as int)
            && t + 28 * DAY * n <= e <= t + 31 * DAY * n,
{
    let d = chrono::DateTime::<chrono::Utc>::from_timestamp(t, 0)?;
    d.checked_add_months(chrono::Months::new(n)).map(|e| e.timestamp())
}

/// Relies on chrono's `DateTime::<Utc>::from_timestamp` and
/// `DateTime::checked_sub_months`: the same instant `n` months earlier, on
/// the last day of the month where the day does not exist, `None` out of range.
#[verifier::external_body]
fn sub_months(t: i64, n: u32) -> (r: Option<i64>)
    ensures
        r is None <==> months_before(t as int, n as int) is None,
        r matches Some(e) ==> months_before(t as int, n as int) == Some(e as int)
            && t - 31 * DAY * n <= e <= t - 28 * DAY * n,
{
    let d = chrono::DateTime::<chrono::Utc>::from_timestamp(t, 0)?;
    d.checked_sub_months(chrono::Months::new(n)).map(|e| e.timestamp())
}

/// Reads a resolution code.
pub fn parse_resolution(code: &str) -> (r: Option<Resolution>)
    ensures
        r == resolution_of(code@),
{
    let c = code.to_owned();
    if c == "PT60M".to_owned() {
        Some(Resolution::SixtyMinutes)
    } else if c == "PT15M".to_owned() {
        Some(Resolution::FifteenMinutes)
    } else if c == "PT1M".to_owned() {
        Some(Resolution::OneMinute)
    } else if c == "P1D".to_owned() {
        Some(Resolution::OneDay)
    } else if c == "P7D".to_owned() {
        Some(Resolution::SevenDays)
    } else if c == "P1M".to_owned() {
        Some(Resolution::OneMonth)
    } else if c == "P1Y".to_owned() {
        Some(Resolution::OneYear)
    } else {
        None
    }
}

/// The end of the interval of resolution `r` starting at `start`.
pub fn resolution_end(start: i64, r: Resolution) -> (e: Option<i64>)
    ensures
        e matches Some(x) ==> end_of(start as int, r) == Some(x as int),
        e is None <==> end_of(start as int, r) is None,
        e matches Some(x) ==> if r == Resolution::OneYear {
            x < start
        } else {
            x > start
        },
{
    match r {
        Resolution::OneMonth => add_months(start, 1),
        Resolution::OneYear => sub_months(start, 12),
        Resolution::OneMinute => start.checked_add(MINUTE),
        Resolution::FifteenMinutes => start.checked_add(15 * MINUTE),
        Resolution::SixtyMinutes => start.checked_add(60 * MINUTE),
        Resolution::OneDay => start.checked_add(DAY),
        Resolution::SevenDays => start.checked_add(7 * DAY),
    }
}

/// The end of the interval that starts at `start` with the resolution that
/// `resolution` names.
pub fn get_end(start: i64, resolution: &str) -> (r: Result<i64, ExportError>)
    ensures
        match resolution_of(resolution@) {
            None => r matches Err(ExportError::UnknownResolution { code }) && code@ == resolution@,
            Some(res) => match end_of(start as int, res) {
                Some(e) => r matches Ok(x) && x as int == e,
                None => r matches Err(ExportError::OutOfRange { start: s }) && s == start,
            },
        },
        r matches Ok(x) ==> if resolution_of(resolution@) == Some(Resolution::OneYear) {
            x < start
        } else {
            x > start
        },
{
    match parse_resolution(resolution) {
        None => Err(ExportError::UnknownResolution { code: resolution.to_owned() }),
        Some(res) => match resolution_end(start, res) {
            Some(e) => Ok(e),
            None => Err(ExportError::OutOfRange { start }),
        },
    }
}

} // verus!

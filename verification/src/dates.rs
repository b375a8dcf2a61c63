//! Dates, read and written with `chrono`.
use chrono::Datelike;
use crate::text;
use vstd::prelude::*;

verus! {

#[verifier::external_type_specification]
#[verifier::external_body]
pub struct ExChronoParseError(chrono::ParseError);

/// The year, month and day that `chrono::NaiveDate::parse_from_str(s, fmt)` reads, or `None`
/// where it fails.
pub uninterp spec fn chrono_parse_date(s: Seq<char>, fmt: Seq<char>) -> Option<(i32, u32, u32)>;

/// Whether `year` is a leap year of the proleptic Gregorian calendar.
pub open spec fn leap_year(year: int) -> bool {
    year % 4 == 0 && (year % 100 != 0 || year % 400 == 0)
}

/// The number of days in `month` (1 to 12) of `year`.
pub open spec fn days_in_month(year: int, month: int) -> int {
    if month == 2 {
        if leap_year(year) { 29 } else { 28 }
    } else if month == 4 || month == 6 || month == 9 || month == 11 {
        30
    } else {
        31
    }
}

/// Whether `chrono` has a date for year `y`, month `m`, day `d`: the year lies in its range
/// (-262143 to 262142) and the day exists in that month.
pub open spec fn valid_date(y: i32, m: u32, d: u32) -> bool {
    &&& -262143 <= y <= 262142
    &&& 1 <= m <= 12
    &&& 1 <= d <= days_in_month(y as int, m as int)
}

/// The year as `chrono` writes `%Y`: four digits, zero-padded, for years 0 to 9999; otherwise
/// with a sign, `+` before the digits of a later year, `-` before the zero-padded digits of
/// an earlier one.
pub open spec fn year_text(y: i32) -> Seq<char> {
    if 0 <= y <= 9999 {
        text::zero_padded(y as nat, 4)
    } else if y > 9999 {
        "+"@ + text::decimal(y as nat)
    } else {
        "-"@ + text::zero_padded((-y) as nat, 4)
    }
}

/// The date as `chrono` writes it in the layout `%Y-%m-%d`.
pub open spec fn iso_date_text(y: i32, m: u32, d: u32) -> Seq<char> {
    year_text(y) + "-"@ + text::zero_padded(m as nat, 2) + "-"@ + text::zero_padded(d as nat, 2)
}

/// Calls `chrono::NaiveDate::parse_from_str(s, fmt)` and hands back the year, month and day
/// of the date read. Trusted: the result is `chrono_parse_date(s, fmt)`, and a date that
/// chrono hands back exists (a `NaiveDate` is always a valid date in chrono's range; month
/// and day as `Datelike` documents them).
#[verifier::external_body]
pub(crate) fn parse_date(s: &str, fmt: &str) -> (res: Result<(i32, u32, u32), chrono::ParseError>)
    ensures
        match res {
            Ok(t) => chrono_parse_date(s@, fmt@) == Some(t),
            Err(_) => chrono_parse_date(s@, fmt@) is None,
        },
        res matches Ok((y, m, d)) ==> valid_date(y, m, d),
{
    match chrono::NaiveDate::parse_from_str(s, fmt) {
        Ok(date) => Ok((date.year(), date.month(), date.day())),
        Err(e) => Err(e),
    }
}

/// Writes the date `y-m-d` with `chrono`'s `format(fmt).to_string()`, after building it with
/// `chrono::NaiveDate::from_ymd_opt`. Trusted: `from_ymd_opt` gives a date exactly for a
/// valid year, month and day, and `%Y-%m-%d` writes it as `iso_date_text` (`%Y` by
/// `write_year`, `%m` and `%d` as two zero-padded digits). A layout that chrono cannot render
/// makes `to_string` panic, so only the one layout that the library writes is admitted.
#[verifier::external_body]
pub(crate) fn format_date(y: i32, m: u32, d: u32, fmt: &str) -> (res: Option<String>)
    requires
        fmt@ == "%Y-%m-%d"@,
    ensures
        match res {
            Some(s) => valid_date(y, m, d) && s@ == iso_date_text(y, m, d),
            None => !valid_date(y, m, d),
        },
{
    match chrono::NaiveDate::from_ymd_opt(y, m, d) {
        Some(date) => Some(date.format(fmt).to_string()),
        None => None,
    }
}

} // verus!

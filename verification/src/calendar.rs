//! Calendar days and their written form.
//!
//! A day is counted in the proleptic Gregorian calendar, with 1 January of
//! year 1 as day 1. The step from a day's number to its written form is made
//! by `chrono`.

use vstd::prelude::*;

verus! {

/// What `chrono` writes for a day number under a `strftime` pattern, or
/// `None` for a day outside the range of dates that `chrono` can hold and
/// for a pattern that it cannot write a date with.
pub uninterp spec fn date_text(day: int, pattern: Seq<char>) -> Option<Seq<char>>;

/// The pattern of a date: year, month and day.
pub open spec fn iso_pattern() -> Seq<char> {
    "%Y-%m-%d"@
}

/// The date of a day, written `YYYY-MM-DD`.
pub open spec fn iso_date(day: int) -> Option<Seq<char>> {
    date_text(day, iso_pattern())
}

/// Writes a day number as a date.
///
/// Calls `chrono::NaiveDate::from_num_days_from_ce_opt`, then
/// `NaiveDate::format` with the pattern, and writes the outcome with
/// `DelayedFormat::write_to`. The contract gives the outcome the name
/// `date_text`: nothing is proved of the text but that it depends on the day
/// number and the pattern alone.
#[verifier::external_body]
pub(crate) fn date_label(day: i32, pattern: &str) -> (label: Option<String>)
    ensures
        match label {
            Some(text) => date_text(day as int, pattern@) == Some(text@),
            None => date_text(day as int, pattern@) is None,
        },
{
    let date = chrono::NaiveDate::from_num_days_from_ce_opt(day)?;
    let mut text = String::new();
    match date.format(pattern).write_to(&mut text) {
        Ok(()) => Some(text),
        Err(_) => None,
    }
}

} // verus!

//! Calendar dates, read and shown by `chrono`.

use chrono::Datelike;
use vstd::prelude::*;

verus! {

/// Year, month and day of the date that `chrono::NaiveDate::parse_from_str`
/// reads from `s` under the format `%Y-%m-%d`; `None` where it fails.
pub uninterp spec fn date_of_text(s: Seq<char>) -> Option<(i32, u32, u32)>;

/// The text that `chrono::NaiveDate` displays for the given year, month and
/// day; `None` where `chrono::NaiveDate::from_ymd_opt` has no such date.
pub uninterp spec fn date_text(year: i32, month: u32, day: u32) -> Option<Seq<char>>;

/// Calls `chrono::NaiveDate::parse_from_str` with the format `%Y-%m-%d` and
/// takes year, month and day from the date. The contract only gives the
/// outcome its name.
#[verifier::external_body]
fn scan_date(s: &str) -> (r: Option<(i32, u32, u32)>)
    ensures
        r == date_of_text(s@),
{
    match chrono::NaiveDate::parse_from_str(s, "%Y-%m-%d") {
        Ok(d) => Some((d.year(), d.month(), d.day())),
        Err(_) => None,
    }
}

/// Calls `chrono::NaiveDate::from_ymd_opt` and, where there is such a date,
/// its `Display`. The contract only gives the outcome its name.
#[verifier::external_body]
fn display_date(year: i32, month: u32, day: u32) -> (r: Option<String>)
    ensures
        r is Some == date_text(year, month, day) is Some,
        r matches Some(t) ==> date_text(year, month, day) == Some(t@),
{
    match chrono::NaiveDate::from_ymd_opt(year, month, day) {
        Some(d) => Some(d.to_string()),
        None => None,
    }
}

/// Year, month and day of a date.
pub struct DateModel {
    pub year: i32,
    pub month: u32,
    pub day: u32,
}

/// Whether there is such a day in the calendar.
pub open spec fn is_date(d: DateModel) -> bool {
    date_text(d.year, d.month, d.day) is Some
}

/// The text shown for a date.
pub open spec fn shown_date(d: DateModel) -> Seq<char> {
    date_text(d.year, d.month, d.day).unwrap()
}

/// The date written in `s` as year, month and day with hyphens between.
pub open spec fn read_date(s: Seq<char>) -> Option<DateModel> {
    match date_of_text(s) {
        Some((year, month, day)) => {
            let d = DateModel { year, month, day };
            if is_date(d) {
                Some(d)
            } else {
                None
            }
        },
        None => None,
    }
}

/// A day of the calendar.
#[derive(Debug, Clone, Copy)]
pub struct Date {
    year: i32,
    month: u32,
    day: u32,
}

impl View for Date {
    type V = DateModel;

    closed spec fn view(&self) -> DateModel {
        DateModel { year: self.year, month: self.month, day: self.day }
    }
}

impl Date {
    #[verifier::type_invariant]
    spec fn in_calendar(&self) -> bool {
        is_date(self@)
    }

    /// The given day, if the calendar has it.
    pub fn new(year: i32, month: u32, day: u32) -> (r: Option<Date>)
        ensures
            r is Some == is_date(DateModel { year, month, day }),
            r matches Some(d) ==> d@ == (DateModel { year, month, day }),
    {
        match display_date(year, month, day) {
            Some(_) => Some(Date { year, month, day }),
            None => None,
        }
    }

    /// The date that `text` holds.
    pub fn parse(text: &str) -> (r: Option<Date>)
        ensures
            r is Some == read_date(text@) is Some,
            r matches Some(d) ==> Some(d@) == read_date(text@),
    {
        match scan_date(text) {
            Some((year, month, day)) => Date::new(year, month, day),
            None => None,
        }
    }

    pub fn year(&self) -> (r: i32)
        ensures
            r == self@.year,
    {
        self.year
    }

    pub fn month(&self) -> (r: u32)
        ensures
            r == self@.month,
    {
        self.month
    }

    pub fn day(&self) -> (r: u32)
        ensures
            r == self@.day,
    {
        self.day
    }

    /// The date as it is shown in a heading.
    pub fn text(&self) -> (r: String)
        ensures
            r@ == shown_date(self@),
            is_date(self@),
    {
        proof {
            use_type_invariant(self);
        }
        match display_date(self.year, self.month, self.day) {
            Some(t) => t,
            None => String::new(),
        }
    }
}

} // verus!

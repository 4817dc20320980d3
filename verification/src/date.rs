//! Calendar dates as plain numbers, read and written as `day.month.year`.

use chrono::Datelike;
use vstd::prelude::*;

verus! {

/// A calendar date: year, month (from 1) and day of the month (from 1).
#[derive(Clone, Copy, Debug, PartialEq, Eq, Structural)]
pub struct Date {
    pub year: i32,
    pub month: u32,
    pub day: u32,
}

/// Year, month and day that chrono reads from a text in the format
/// `%d.%m.%Y`, or `None` where it reads no date.
pub uninterp spec fn date_of_text(text: Seq<char>) -> Option<(i32, u32, u32)>;

/// The text that chrono writes in the format `%d.%m.%Y` for the date with
/// this year, month and day, or `None` where chrono knows no such date.
pub uninterp spec fn text_of_date(year: i32, month: u32, day: u32) -> Option<Seq<char>>;

/// Trusted: calls `chrono::NaiveDate::parse_from_str` with the format
/// `%d.%m.%Y` and hands out the year, month and day of the date it read.
/// The call depends on the text alone and does not panic; what it reads is
/// only named, not described.
#[verifier::external_body]
fn chrono_parse_date(text: &str) -> (r: Option<(i32, u32, u32)>)
    ensures
        r == date_of_text(text@),
{
    match chrono::NaiveDate::parse_from_str(text, "%d.%m.%Y") {
        Ok(d) => Some((d.year(), d.month(), d.day())),
        Err(_) => None,
    }
}

/// Trusted: builds the date with `chrono::NaiveDate::from_ymd_opt` and, where
/// there is one, writes it with `chrono::NaiveDate::format` in the format
/// `%d.%m.%Y`. The result depends on the three numbers alone; the text is
/// only named, not described.
#[verifier::external_body]
fn chrono_format_date(year: i32, month: u32, day: u32) -> (r: Option<String>)
    ensures
        r is Some <==> text_of_date(year, month, day) is Some,
        r is Some ==> r->0@ == text_of_date(year, month, day)->0,
{
    match chrono::NaiveDate::from_ymd_opt(year, month, day) {
        Some(d) => Some(d.format("%d.%m.%Y").to_string()),
        None => None,
    }
}

/// Trusted: the local date of the moment of the call, from
/// `chrono::Local::now`, as the year, month and day that `Datelike::year`,
/// `Datelike::month` and `Datelike::day` give for it. Which date it is
/// depends on the clock and is not stated. What is stated holds of every
/// date of chrono: the month is from 1 to 12 and the day from 1 to 31.
#[verifier::external_body]
fn chrono_today() -> (r: (i32, u32, u32))
    ensures
        1 <= r.1 <= 12,
        1 <= r.2 <= 31,
{
    let d: chrono::NaiveDate = chrono::Local::now().naive_local().into();
    (d.year(), d.month(), d.day())
}

impl Date {
    /// The date that a text in the form `day.month.year` stands for.
    pub open spec fn of_text(text: Seq<char>) -> Option<Date> {
        match date_of_text(text) {
            Some(ymd) => Some(Date { year: ymd.0, month: ymd.1, day: ymd.2 }),
            None => None,
        }
    }

    /// The text of this date in the form `day.month.year`, where it has one.
    pub open spec fn text(self) -> Option<Seq<char>> {
        text_of_date(self.year, self.month, self.day)
    }

    /// Reads a date written as `day.month.year`.
    pub fn parse(text: &str) -> (r: Option<Date>)
        ensures
            r == Date::of_text(text@),
    {
        match chrono_parse_date(text) {
            Some(ymd) => Some(Date { year: ymd.0, month: ymd.1, day: ymd.2 }),
            None => None,
        }
    }

    /// Writes the date as `day.month.year`. A value whose numbers are no
    /// day of the calendar has no text.
    pub fn format(&self) -> (r: Option<String>)
        ensures
            r is Some <==> self.text() is Some,
            r is Some ==> r->0@ == self.text()->0,
    {
        chrono_format_date(self.year, self.month, self.day)
    }

    /// The month is one of the twelve and the day is one that a month can
    /// have. Every day of the calendar is such a date; not every such date
    /// is a day of the calendar.
    pub open spec fn has_month_and_day(self) -> bool {
        &&& 1 <= self.month <= 12
        &&& 1 <= self.day <= 31
    }

    /// The local date of today. Which date that is depends on the clock;
    /// whatever the clock says, it has a month and a day of the calendar.
    pub fn today() -> (r: Date)
        ensures
            r.has_month_and_day(),
    {
        let ymd = chrono_today();
        Date { year: ymd.0, month: ymd.1, day: ymd.2 }
    }

    /// The date used where none is given: the first of January 1970.
    pub open spec fn epoch() -> Date {
        Date { year: 1970, month: 1, day: 1 }
    }
}

impl Default for Date {
    fn default() -> (r: Date)
        ensures
            r == Date::epoch(),
    {
        Date { year: 1970, month: 1, day: 1 }
    }
}

} // verus!

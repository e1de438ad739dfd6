//! Calendar dates: reading them from text, and the week around today.
//!
//! The calendar itself is chrono's. The library keeps a date as three plain
//! numbers and asks chrono for what only a calendar can tell.

use chrono::Datelike;
use vstd::prelude::*;
use crate::error::ErrorKind;
use crate::sort::Ranked;

verus! {

/// A calendar date.
#[derive(Debug, Clone, Copy, PartialEq, Eq, Structural)]
pub struct Date {
    pub year: i32,
    pub month: u32,
    pub day: u32,
}

/// A day of the year without the year. Days compare by month, then by day of
/// the month.
#[derive(Debug, Clone, Copy, PartialEq, Eq, Structural)]
pub struct YearlessDate {
    pub month: u32,
    pub day: u32,
}

/// The first and the last day of a week.
#[derive(Debug, Clone, Copy, PartialEq, Eq, Structural)]
pub struct WeekWindow {
    pub start: YearlessDate,
    pub end: YearlessDate,
}

/// `chrono::ParseError`, the error of chrono's parser. The library hands it
/// on without looking into it.
#[verifier::external_type_specification]
#[verifier::external_body]
pub struct ExParseError(chrono::ParseError);

/// The format that dates are written in: year, month and day with dashes
/// between.
pub open spec fn date_format() -> Seq<char> {
    "%Y-%m-%d"@
}

/// The day that a week starts with, counted in days from Monday: Saturday.
pub const WEEK_START: u8 = 5;

/// The date that `chrono::NaiveDate::parse_from_str` reads from the text `s`
/// under the format `format`, as year, month and day; `None` where it reports
/// an error.
pub uninterp spec fn parsed_date(s: Seq<char>, format: Seq<char>) -> Option<(i32, u32, u32)>;

/// The first day of the week that holds the given date and starts with the
/// day `start`, counted in days from Monday, by
/// `chrono::NaiveWeek::checked_first_day`; `None` where the start is no day of
/// the week, the date does not exist, or that day is out of chrono's range.
pub uninterp spec fn week_first_day(start: u8, year: i32, month: u32, day: u32) -> Option<(i32, u32, u32)>;

/// The last day of the week that holds the given date and starts with the
/// day `start`, counted in days from Monday, by
/// `chrono::NaiveWeek::checked_last_day`; `None` where the start is no day of
/// the week, the date does not exist, or that day is out of chrono's range.
pub uninterp spec fn week_last_day(start: u8, year: i32, month: u32, day: u32) -> Option<(i32, u32, u32)>;

/// `chrono::NaiveDate::parse_from_str(input, format)`, the date taken apart
/// by `Datelike::year`, `month` and `day`. The result is a function of the
/// text and the format and goes by the name `parsed_date`. The contract is
/// kept to the format that the library writes dates in.
#[verifier::external_body]
fn naive_date_from_str(input: &str, format: &str) -> (r: Result<(i32, u32, u32), chrono::ParseError>)
    requires
        format@ == date_format(),
    ensures
        r is Ok <==> parsed_date(input@, format@) is Some,
        r matches Ok(d) ==> parsed_date(input@, format@) == Some(d),
{
    let date = chrono::NaiveDate::parse_from_str(input, format)?;
    Ok((date.year(), date.month(), date.day()))
}

/// `chrono::Local::now()`, of which the calendar date is kept, taken apart by
/// `Datelike::year`, `month` and `day`. Which date it is is the clock's. What
/// holds of every date that chrono hands out is what `NaiveDate` documents: it
/// is a date of the proleptic Gregorian calendar, so its month is one of the
/// twelve and its day one of the days that this month has in this year.
#[verifier::external_body]
fn local_today() -> (r: (i32, u32, u32))
    ensures
        1 <= r.1 <= 12,
        1 <= r.2 <= days_in_month(r.0 as int, r.1 as int),
{
    let now = chrono::Local::now();
    (now.year(), now.month(), now.day())
}

/// `chrono::NaiveWeek::checked_first_day` of the week that holds the given
/// date and starts with the day that `chrono::Weekday::try_from` makes of
/// `start`, which counts the days from Monday.
#[verifier::external_body]
fn first_day_of_week(start: u8, year: i32, month: u32, day: u32) -> (r: Option<(i32, u32, u32)>)
    ensures
        r == week_first_day(start, year, month, day),
{
    let date = chrono::NaiveDate::from_ymd_opt(year, month, day)?;
    let first = date.week(chrono::Weekday::try_from(start).ok()?).checked_first_day()?;
    Some((first.year(), first.month(), first.day()))
}

/// `chrono::NaiveWeek::checked_last_day` of the week that holds the given
/// date and starts with the day that `chrono::Weekday::try_from` makes of
/// `start`, which counts the days from Monday.
#[verifier::external_body]
fn last_day_of_week(start: u8, year: i32, month: u32, day: u32) -> (r: Option<(i32, u32, u32)>)
    ensures
        r == week_last_day(start, year, month, day),
{
    let date = chrono::NaiveDate::from_ymd_opt(year, month, day)?;
    let last = date.week(chrono::Weekday::try_from(start).ok()?).checked_last_day()?;
    Some((last.year(), last.month(), last.day()))
}

/// The date that a text holds, if it holds one.
pub open spec fn date_of(s: Seq<char>) -> Option<Date> {
    match parsed_date(s, date_format()) {
        Some(d) => Some(Date { year: d.0, month: d.1, day: d.2 }),
        None => None,
    }
}

/// The week from Saturday to Friday around a date, if chrono has one.
pub open spec fn week_around(today: Date) -> Option<(Date, Date)> {
    match (
        week_first_day(WEEK_START, today.year, today.month, today.day),
        week_last_day(WEEK_START, today.year, today.month, today.day),
    ) {
        (Some(a), Some(b)) => Some(
            (Date { year: a.0, month: a.1, day: a.2 }, Date { year: b.0, month: b.1, day: b.2 }),
        ),
        _ => None,
    }
}

/// Whether a year of the Gregorian calendar, reckoned back beyond its
/// introduction and with a year zero, has a twenty-ninth of February.
pub open spec fn is_leap_year(year: int) -> bool {
    year % 4 == 0 && (year % 100 != 0 || year % 400 == 0)
}

/// The number of days that a month has in a year.
pub open spec fn days_in_month(year: int, month: int) -> int {
    if month == 2 {
        if is_leap_year(year) {
            29
        } else {
            28
        }
    } else if month == 4 || month == 6 || month == 9 || month == 11 {
        30
    } else {
        31
    }
}

impl Date {
    /// The date is one of the Gregorian calendar: its month is one of the
    /// twelve and its day one of the days that the month has in its year.
    pub open spec fn in_calendar(self) -> bool {
        1 <= self.month <= 12 && 1 <= self.day <= days_in_month(self.year as int, self.month as int)
    }

    /// The date without its year.
    pub open spec fn yearless(self) -> YearlessDate {
        YearlessDate { month: self.month, day: self.day }
    }

    /// The date without its year.
    pub fn without_year(&self) -> (r: YearlessDate)
        ensures
            r == self.yearless(),
    {
        YearlessDate { month: self.month, day: self.day }
    }
}

impl YearlessDate {
    /// `self` is an earlier day of the year than `other`.
    pub open spec fn earlier(self, other: YearlessDate) -> bool {
        self.month < other.month || (self.month == other.month && self.day < other.day)
    }

    /// Decides `earlier`.
    pub fn is_earlier(&self, other: &YearlessDate) -> (r: bool)
        ensures
            r == self.earlier(*other),
    {
        self.month < other.month || (self.month == other.month && self.day < other.day)
    }
}

impl Ranked for YearlessDate {
    open spec fn before(&self, other: &Self) -> bool {
        self.earlier(*other)
    }

    fn is_before(&self, other: &Self) -> (r: bool) {
        self.is_earlier(other)
    }

    proof fn lemma_asymmetric(a: &Self, b: &Self) {
    }

    proof fn lemma_chain(a: &Self, b: &Self, c: &Self) {
    }
}

impl WeekWindow {
    /// Whether `day` falls into the window. The window knows no year: one that
    /// starts late in December and ends early in January holds the days from
    /// its start to the end of the year and those from the new year to its
    /// end.
    pub open spec fn holds(self, day: YearlessDate) -> bool {
        if self.end.earlier(self.start) {
            !day.earlier(self.start) || !self.end.earlier(day)
        } else {
            !day.earlier(self.start) && !self.end.earlier(day)
        }
    }

    /// Decides `holds`.
    pub fn contains(&self, day: &YearlessDate) -> (r: bool)
        ensures
            r == self.holds(*day),
    {
        if self.end.is_earlier(&self.start) {
            !day.is_earlier(&self.start) || !self.end.is_earlier(day)
        } else {
            !day.is_earlier(&self.start) && !self.end.is_earlier(day)
        }
    }
}

/// Reads a date written as `year-month-day`.
pub fn parse_string_to_datetime(input: &str) -> (r: Result<Date, ErrorKind>)
    ensures
        r == match date_of(input@) {
            Some(d) => Ok::<Date, ErrorKind>(d),
            None => Err::<Date, ErrorKind>(ErrorKind::UnparsableDate),
        },
{
    match naive_date_from_str(input, "%Y-%m-%d") {
        Ok(d) => Ok(Date { year: d.0, month: d.1, day: d.2 }),
        Err(_) => Err(ErrorKind::UnparsableDate),
    }
}

/// Reads a date written as `year-month-day` and drops its year.
pub fn parse_string_to_yearless_date(input: &str) -> (r: Result<YearlessDate, ErrorKind>)
    ensures
        r == match date_of(input@) {
            Some(d) => Ok::<YearlessDate, ErrorKind>(d.yearless()),
            None => Err::<YearlessDate, ErrorKind>(ErrorKind::UnparsableDate),
        },
{
    match parse_string_to_datetime(input) {
        Ok(d) => Ok(d.without_year()),
        Err(e) => Err(e),
    }
}

/// Today's date by the local clock. Which date that is depends on the clock;
/// whatever it says, it is a date of the calendar.
pub fn today() -> (r: Date)
    ensures
        r.in_calendar(),
{
    let d = local_today();
    Date { year: d.0, month: d.1, day: d.2 }
}

/// The week from Saturday to Friday around `day`: its first and its last day.
pub fn week_of(day: &Date) -> (r: Option<(Date, Date)>)
    ensures
        r == week_around(*day),
{
    match (
        first_day_of_week(WEEK_START, day.year, day.month, day.day),
        last_day_of_week(WEEK_START, day.year, day.month, day.day),
    ) {
        (Some(a), Some(b)) => Some(
            (Date { year: a.0, month: a.1, day: a.2 }, Date { year: b.0, month: b.1, day: b.2 }),
        ),
        _ => None,
    }
}

/// The first and the last day of the current week, which runs from Saturday to
/// Friday. Which week that is depends on the clock; whatever it says, the
/// result is the week around one date of the calendar.
pub fn get_start_end_week_dates() -> (r: Option<(Date, Date)>)
    ensures
        exists|day: Date| day.in_calendar() && r == week_around(day),
{
    let day = today();
    week_of(&day)
}

/// The window of the current week, for comparing days of the year.
pub fn current_week() -> (r: Option<WeekWindow>)
    ensures
        exists|day: Date| day.in_calendar() && r == window_of(week_around(day)),
{
    let week = get_start_end_week_dates();
    let ghost day = choose|day: Date| day.in_calendar() && week == week_around(day);
    let r = match week {
        Some((a, b)) => Some(WeekWindow { start: a.without_year(), end: b.without_year() }),
        None => None,
    };
    assert(day.in_calendar() && r == window_of(week_around(day)));
    r
}

/// A week's first and last day as a window of days of the year.
pub open spec fn window_of(week: Option<(Date, Date)>) -> Option<WeekWindow> {
    match week {
        Some((a, b)) => Some(WeekWindow { start: a.yearless(), end: b.yearless() }),
        None => None,
    }
}

} // verus!

//! Civil dates and the ISO 10383 publication calendar.

use vstd::prelude::*;

verus! {

/// A proleptic Gregorian calendar date, as `jiff::civil::Date` holds it.
#[derive(Clone, Copy, Debug, PartialEq, Eq, Structural)]
pub struct Date {
    pub year: i16,
    pub month: i8,
    pub day: i8,
}

/// Leap years of the proleptic Gregorian calendar.
pub open spec fn is_leap_year(y: int) -> bool {
    (y % 4 == 0 && y % 100 != 0) || y % 400 == 0
}

pub open spec fn days_in_month(y: int, m: int) -> int {
    if m == 2 {
        if is_leap_year(y) { 29 } else { 28 }
    } else if m == 4 || m == 6 || m == 9 || m == 11 {
        30
    } else {
        31
    }
}

/// The dates `jiff` can represent: years -9999 to 9999.
pub open spec fn valid_ymd(y: int, m: int, d: int) -> bool {
    &&& -9999 <= y <= 9999
    &&& 1 <= m <= 12
    &&& 1 <= d <= days_in_month(y, m)
}

/// Days since 1970-01-01 (negative before it).
pub open spec fn days_from_civil(y: int, m: int, d: int) -> int {
    let yy = if m <= 2 { y - 1 } else { y };
    let era = yy / 400;
    let yoe = yy - era * 400;
    let mp = if m > 2 { m - 3 } else { m + 9 };
    let doy = (153 * mp + 2) / 5 + d - 1;
    let doe = yoe * 365 + yoe / 4 - yoe / 100 + doy;
    era * 146097 + doe - 719468
}

/// The weekday counted from Monday as 0 (1970-01-01 was a Thursday, 3).
pub open spec fn weekday_from_monday(y: int, m: int, d: int) -> int {
    (days_from_civil(y, m, d) + 3) % 7
}

pub open spec fn digit(n: int) -> char {
    ((48 + n) as u32) as char
}

/// Four digits, zero-padded.
pub open spec fn pad4(n: int) -> Seq<char> {
    seq![digit((n / 1000) % 10), digit((n / 100) % 10), digit((n / 10) % 10), digit(n % 10)]
}

/// Two digits, zero-padded.
pub open spec fn pad2(n: int) -> Seq<char> {
    seq![digit((n / 10) % 10), digit(n % 10)]
}

/// `YYYY-MM-DD`; a year before 0 is written with a sign and six digits.
pub open spec fn date_text(d: Date) -> Seq<char> {
    let y = d.year as int;
    let sign = if y < 0 { seq!['-', '0', '0'] } else { Seq::<char>::empty() };
    let ay = if y < 0 { -y } else { y };
    sign + pad4(ay) + seq!['-'] + pad2(d.month as int) + seq!['-'] + pad2(d.day as int)
}

impl Date {
    pub open spec fn wf(&self) -> bool {
        valid_ymd(self.year as int, self.month as int, self.day as int)
    }

    pub open spec fn day_number(&self) -> int {
        days_from_civil(self.year as int, self.month as int, self.day as int)
    }

    pub open spec fn weekday(&self) -> int {
        weekday_from_monday(self.year as int, self.month as int, self.day as int)
    }

    /// Chronological order: by year, then month, then day.
    pub open spec fn precedes(&self, other: Date) -> bool {
        ||| self.year < other.year
        ||| (self.year == other.year && self.month < other.month)
        ||| (self.year == other.year && self.month == other.month && self.day < other.day)
    }

    /// A date from its year, month and day, or `None` when they name no date.
    pub fn new(year: i16, month: i8, day: i8) -> (r: Option<Date>)
        ensures
            r is Some <==> valid_ymd(year as int, month as int, day as int),
            r matches Some(d) ==> d == (Date { year, month, day }),
    {
        jiff_date_new(year, month, day)
    }

    /// Whether `self` comes strictly before `other`.
    pub fn is_before(&self, other: &Date) -> (r: bool)
        ensures
            r == self.precedes(*other),
    {
        self.year < other.year || (self.year == other.year && self.month < other.month) || (
        self.year == other.year && self.month == other.month && self.day < other.day)
    }

    /// The weekday, Monday being 0.
    pub fn weekday_from_monday(&self) -> (w: i8)
        requires
            self.wf(),
        ensures
            w == self.weekday(),
            0 <= w < 7,
    {
        jiff_weekday(self)
    }

    /// `YYYY-MM-DD`, as `jiff` displays a date.
    pub fn to_text(&self) -> (s: String)
        requires
            self.wf(),
        ensures
            s@ == date_text(*self),
    {
        jiff_display(self)
    }
}

/// `jiff::civil::Date::new`: succeeds exactly on the dates its documentation
/// lists (years -9999..=9999, months 1..=12, days within the month), keeping
/// the fields as given.
#[verifier::external_body]
fn jiff_date_new(year: i16, month: i8, day: i8) -> (r: Option<Date>)
    ensures
        r is Some <==> valid_ymd(year as int, month as int, day as int),
        r matches Some(d) ==> d == (Date { year, month, day }),
{
    jiff::civil::Date::new(year, month, day).ok().map(|d| Date { year: d.year(), month: d.month(), day: d.day() })
}

/// `jiff::civil::Date::weekday` followed by `Weekday::to_monday_zero_offset`:
/// the weekday of the proleptic Gregorian calendar, Monday being 0.
#[verifier::external_body]
fn jiff_weekday(d: &Date) -> (w: i8)
    requires
        d.wf(),
    ensures
        w == d.weekday(),
{
    jiff::civil::date(d.year, d.month, d.day).weekday().to_monday_zero_offset()
}

/// `jiff::civil::Date::since` read in days: in its default configuration days
/// are the largest unit and no error is possible, so the result is the number
/// of days from `earlier` to `later`.
#[verifier::external_body]
fn jiff_days_since(later: &Date, earlier: &Date) -> (n: i32)
    requires
        later.wf(),
        earlier.wf(),
    ensures
        n == later.day_number() - earlier.day_number(),
{
    let later = jiff::civil::date(later.year, later.month, later.day);
    let earlier = jiff::civil::date(earlier.year, earlier.month, earlier.day);
    later.since(earlier).map(|s| s.get_days()).unwrap_or(i32::MAX)
}

/// The `Display` of `jiff::civil::Date`: the year zero-padded to four digits
/// (prefixed by `-00` when negative), then two-digit month and day, joined by
/// hyphens.
#[verifier::external_body]
fn jiff_display(d: &Date) -> (s: String)
    requires
        d.wf(),
    ensures
        s@ == date_text(*d),
{
    jiff::civil::date(d.year, d.month, d.day).to_string()
}

/// What `jiff`'s `Date` parser (`FromStr`) makes of a text. It accepts more
/// than `YYYY-MM-DD` (any ISO 8601 / RFC 9557 datetime, whose date it keeps),
/// so the result is named rather than written out.
pub uninterp spec fn jiff_date_parse(s: Seq<char>) -> Option<Date>;

/// `<jiff::civil::Date as FromStr>::from_str`. Beside naming the result, states
/// what the parser plainly does: it only yields representable dates, and it
/// reads back the text that `Display` writes (four digits for a year from 0
/// on, a sign and six digits before it).
#[verifier::external_body]
fn jiff_parse(s: &str) -> (r: Option<Date>)
    ensures
        r == jiff_date_parse(s@),
        r matches Some(d) ==> d.wf(),
        forall|d: Date| d.wf() && s@ == date_text(d) ==> r == Some(d),
{
    s.parse::<jiff::civil::Date>().ok().map(|d| Date { year: d.year(), month: d.month(), day: d.day() })
}

/// Days from one date to another, `later` minus `earlier`.
pub fn days_since(later: &Date, earlier: &Date) -> (n: i32)
    requires
        later.wf(),
        earlier.wf(),
    ensures
        n == later.day_number() - earlier.day_number(),
{
    jiff_days_since(later, earlier)
}

/// Why a text is not a date.
#[derive(Debug, Clone, PartialEq, Eq)]
pub enum DateError {
    /// The text, as given, is not a date in `YYYY-MM-DD` form.
    NotADate(String),
}

/// Parse `YYYY-MM-DD` (and whatever else `jiff` reads as a date).
pub fn parse_date(s: &str) -> (r: Result<Date, DateError>)
    ensures
        match r {
            Ok(d) => jiff_date_parse(s@) == Some(d) && d.wf(),
            Err(DateError::NotADate(t)) => jiff_date_parse(s@) is None && t@ == s@,
        },
        forall|d: Date| d.wf() && s@ == date_text(d) ==> r == Ok::<Date, DateError>(d),
{
    match jiff_parse(s) {
        Some(d) => Ok(d),
        None => Err(DateError::NotADate(String::from_str(s))),
    }
}

/// The day of the month on which the second Monday falls, given the weekday
/// (Monday 0) of the first of that month.
pub open spec fn second_monday_day(first_weekday: int) -> int {
    1 + (7 - first_weekday) % 7 + 7
}

/// The second Monday of a month, ISO's scheduled publication day.
pub open spec fn second_monday_of(y: int, m: int) -> Date {
    Date {
        year: y as i16,
        month: m as i8,
        day: second_monday_day(weekday_from_monday(y, m, 1)) as i8,
    }
}

/// A month that holds no second Monday, which the calendar never produces.
#[derive(Debug, Clone, PartialEq, Eq)]
pub enum ScheduleError {
    NoSecondMonday { year: i16, month: i8 },
}

/// The second Monday of `date`'s month: ISO's scheduled publication day.
pub fn second_monday_of_month(date: Date) -> (r: Result<Date, ScheduleError>)
    requires
        date.wf(),
    ensures
        r == Ok::<Date, ScheduleError>(second_monday_of(date.year as int, date.month as int)),
{
    let first = match Date::new(date.year, date.month, 1) {
        Some(d) => d,
        None => {
            return Err(ScheduleError::NoSecondMonday { year: date.year, month: date.month });
        },
    };
    let offset = first.weekday_from_monday();
    let first_monday_day: i8 = 1 + ((7 - offset) % 7);
    let day: i8 = first_monday_day + 7;
    if day > 28 {
        return Err(ScheduleError::NoSecondMonday { year: date.year, month: date.month });
    }
    match Date::new(date.year, date.month, day) {
        Some(d) => Ok(d),
        None => Err(ScheduleError::NoSecondMonday { year: date.year, month: date.month }),
    }
}

/// Within a month, the day number advances one per day.
proof fn lemma_day_number_within_month(y: int, m: int, d1: int, d2: int)
    ensures
        days_from_civil(y, m, d2) == days_from_civil(y, m, d1) + (d2 - d1),
{
}

/// Every month has a second Monday: it is a Monday, it falls on the 8th to
/// the 14th, and it is a valid date of that same month.
pub proof fn second_monday_is_a_monday_in_the_second_week(date: Date)
    requires
        date.wf(),
    ensures
        second_monday_of(date.year as int, date.month as int).wf(),
        second_monday_of(date.year as int, date.month as int).weekday() == 0,
        8 <= second_monday_of(date.year as int, date.month as int).day <= 14,
        second_monday_of(date.year as int, date.month as int).year == date.year,
        second_monday_of(date.year as int, date.month as int).month == date.month,
{
    let y = date.year as int;
    let m = date.month as int;
    let w = weekday_from_monday(y, m, 1);
    let day = second_monday_day(w);
    assert(0 <= w < 7);
    assert(8 <= day <= 14);
    lemma_day_number_within_month(y, m, 1, day);
    let n1 = days_from_civil(y, m, 1);
    assert((n1 + (day - 1) + 3) % 7 == 0) by {
        assert(w == (n1 + 3) % 7);
    }
}

} // verus!

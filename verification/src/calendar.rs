//! Calendar dates of the proleptic Gregorian calendar and the clock's readings.
use chrono::Datelike;
use vstd::prelude::*;

use crate::text::{digits, two_digits};

verus! {

/// A calendar date.
#[derive(Debug, Clone, Copy, PartialEq, Eq, Structural)]
pub struct Date {
    pub year: i32,
    pub month: u32,
    pub day: u32,
}

/// The first year that a date can have.
pub const MIN_YEAR: i32 = -262143;

/// The last year that a date can have.
pub const MAX_YEAR: i32 = 262142;

/// The number of the first day of 1970, counting 0001-01-01 as day 1.
pub const EPOCH_DAY: i64 = 719163;

/// The number of seconds of a day.
pub const SECONDS_PER_DAY: i64 = 86400;

/// Whether a year has a 29th of February.
pub open spec fn is_leap(year: int) -> bool {
    year % 4 == 0 && (year % 100 != 0 || year % 400 == 0)
}

/// The number of days of a month.
pub open spec fn month_days(year: int, month: int) -> int {
    if month == 2 {
        if is_leap(year) {
            29
        } else {
            28
        }
    } else if month == 4 || month == 6 || month == 9 || month == 11 {
        30
    } else {
        31
    }
}

/// The number of days of a year before a month of it.
pub open spec fn days_before_month(year: int, month: int) -> int
    decreases month,
{
    if month <= 1 {
        0
    } else {
        days_before_month(year, month - 1) + month_days(year, month - 1)
    }
}

/// The number of days from 0001-01-01 to the first day of a year.
pub open spec fn days_before_year(year: int) -> int {
    365 * (year - 1) + (year - 1) / 4 - (year - 1) / 100 + (year - 1) / 400
}

impl Date {
    /// Whether the calendar has this date.
    pub open spec fn valid(self) -> bool {
        &&& MIN_YEAR <= self.year <= MAX_YEAR
        &&& 1 <= self.month <= 12
        &&& 1 <= self.day <= month_days(self.year as int, self.month as int)
    }

    /// The number of the day, counting 0001-01-01 as day 1.
    pub open spec fn number(self) -> int {
        days_before_year(self.year as int) + days_before_month(self.year as int, self.month as int)
            + self.day
    }

    /// Whether this date comes before another.
    pub open spec fn before(self, other: Date) -> bool {
        self.year < other.year || (self.year == other.year && (self.month < other.month || (
        self.month == other.month && self.day < other.day)))
    }

    /// The date a number of months later: the same day of the month, or the last one of a month
    /// too short for it. `None` past the last year.
    pub open spec fn months_later(self, months: int) -> Option<Date> {
        let total = self.year * 12 + self.month - 1 + months;
        let year = total / 12;
        let month = total % 12 + 1;
        let last = month_days(year, month);
        if year > MAX_YEAR {
            None
        } else {
            Some(
                Date {
                    year: year as i32,
                    month: month as u32,
                    day: if self.day <= last {
                        self.day
                    } else {
                        last as u32
                    },
                },
            )
        }
    }

    /// The date as text, `YYYY-MM-DD`, with a sign before a year outside of 0 to 9999.
    pub open spec fn text(self) -> Seq<char> {
        year_text(self.year as int) + seq!['-'] + two_digits(self.month as int) + seq!['-']
            + two_digits(self.day as int)
    }

    /// Whether this date comes before another.
    pub fn is_before(&self, other: &Date) -> (r: bool)
        ensures
            r == self.before(*other),
    {
        self.year < other.year || (self.year == other.year && (self.month < other.month || (
        self.month == other.month && self.day < other.day)))
    }
}

/// A year as text: at least four digits, with a sign where four digits without one are not enough.
pub open spec fn year_text(year: int) -> Seq<char> {
    if 0 <= year <= 9999 {
        four_digits(year)
    } else if year < 0 {
        seq!['-'] + padded(-year)
    } else {
        seq!['+'] + padded(year)
    }
}

/// A number below 10000 in four digits.
pub open spec fn four_digits(n: int) -> Seq<char> {
    two_digits(n / 100) + two_digits(n % 100)
}

/// A number in at least four digits.
pub open spec fn padded(n: int) -> Seq<char> {
    if n <= 9999 {
        four_digits(n)
    } else {
        digits(n as nat)
    }
}

/// The number of the day on which a second after 1970-01-01 00:00 UTC falls.
pub open spec fn day_of_second(secs: int) -> int {
    EPOCH_DAY + secs / (SECONDS_PER_DAY as int)
}

/// Whether a day number belongs to a date of the calendar.
pub open spec fn in_calendar(day: int) -> bool {
    days_before_year(MIN_YEAR as int) < day <= days_before_year(MAX_YEAR + 1)
}

/// The date with a day number.
pub open spec fn date_of_day(day: int) -> Date {
    choose|d: Date| d.valid() && #[trigger] d.number() == day
}

/// A moment as `YYYY-MM-DD HH:MM`.
pub open spec fn minute_text(secs: int) -> Seq<char> {
    let rest = secs % (SECONDS_PER_DAY as int);
    date_of_day(day_of_second(secs)).text() + seq![' '] + two_digits(rest / 3600) + seq![':']
        + two_digits(rest % 3600 / 60)
}

/// The date that a text stands for when `chrono::NaiveDate` reads it, as year, month and day.
pub uninterp spec fn parsed_date(text: Seq<char>) -> Option<(i32, u32, u32)>;

/// The date that a text stands for.
pub open spec fn date_of_text(text: Seq<char>) -> Option<Date> {
    match parsed_date(text) {
        Some(p) => Some(Date { year: p.0, month: p.1, day: p.2 }),
        None => None,
    }
}

/// Reads a date with `str::parse::<chrono::NaiveDate>`, whose result is a function of the text
/// alone. A date that it gives is one of the calendar.
#[verifier::external_body]
pub(crate) fn parse_date(text: &str) -> (r: Option<Date>)
    ensures
        r matches Some(d) ==> d.valid() && parsed_date(text@) == Some((d.year, d.month, d.day)),
        r is None ==> parsed_date(text@) is None,
{
    let date = text.parse::<chrono::NaiveDate>().ok()?;
    Some(Date { year: date.year(), month: date.month(), day: date.day() })
}

/// Writes a date with the `Display` of `chrono::NaiveDate`: `%Y-%m-%d`, with an explicit sign for
/// years before 0 or after 9999. What it writes, `str::parse` reads back as the same date.
#[verifier::external_body]
pub(crate) fn date_text(date: &Date) -> (r: String)
    requires
        date.valid(),
    ensures
        r@ == date.text(),
        parsed_date(r@) == Some((date.year, date.month, date.day)),
{
    chrono::NaiveDate::from_ymd_opt(date.year, date.month, date.day).unwrap().to_string()
}

/// Calls `chrono::NaiveDate::checked_add_months`: the same day of the later month, or the last day
/// of that month where it has no such day; `None` where the date would lie past the calendar.
#[verifier::external_body]
pub(crate) fn add_months(date: &Date, months: u32) -> (r: Option<Date>)
    requires
        date.valid(),
    ensures
        r == date.months_later(months as int),
{
    let from = chrono::NaiveDate::from_ymd_opt(date.year, date.month, date.day)?;
    let later = from.checked_add_months(chrono::Months::new(months))?;
    Some(Date { year: later.year(), month: later.month(), day: later.day() })
}

/// Subtracts two `chrono::NaiveDate`s and takes `num_days` of the difference: the number of days
/// from the earlier date to the later one, negative where they stand the other way round.
#[verifier::external_body]
pub(crate) fn days_between(later: &Date, earlier: &Date) -> (r: i64)
    requires
        later.valid(),
        earlier.valid(),
    ensures
        r == later.number() - earlier.number(),
{
    let to = chrono::NaiveDate::from_ymd_opt(later.year, later.month, later.day).unwrap();
    let from = chrono::NaiveDate::from_ymd_opt(earlier.year, earlier.month, earlier.day).unwrap();
    (to - from).num_days()
}

/// Takes the UTC date of `chrono::DateTime::from_timestamp`: `None` exactly where the seconds lie
/// outside of the calendar.
#[verifier::external_body]
pub(crate) fn date_of_seconds(secs: i64) -> (r: Option<Date>)
    ensures
        r is Some <==> in_calendar(day_of_second(secs as int)),
        r matches Some(d) ==> d.valid() && d.number() == day_of_second(secs as int),
{
    let date = chrono::DateTime::from_timestamp(secs, 0)?.date_naive();
    Some(Date { year: date.year(), month: date.month(), day: date.day() })
}

/// Formats `chrono::DateTime::from_timestamp` with `%Y-%m-%d %H:%M`: the UTC date, hour and
/// minute; `None` exactly where the seconds lie outside of the calendar.
#[verifier::external_body]
pub(crate) fn minute_of_seconds(secs: i64) -> (r: Option<String>)
    ensures
        r is Some <==> in_calendar(day_of_second(secs as int)),
        r matches Some(t) ==> t@ == minute_text(secs as int),
{
    Some(chrono::DateTime::from_timestamp(secs, 0)?.format("%Y-%m-%d %H:%M").to_string())
}

// ---------------------------------------------------------------------------
// Order and distance of dates
// ---------------------------------------------------------------------------

proof fn lemma_leap_steps(y: int)
    ensures
        days_before_year(y + 1) == days_before_year(y) + if is_leap(y) { 366int } else { 365int },
{
    assert(y / 4 - (y - 1) / 4 == if y % 4 == 0 { 1int } else { 0int });
    assert(y / 100 - (y - 1) / 100 == if y % 100 == 0 { 1int } else { 0int });
    assert(y / 400 - (y - 1) / 400 == if y % 400 == 0 { 1int } else { 0int });
}

proof fn lemma_years_apart(a: int, b: int)
    requires
        a < b,
    ensures
        days_before_year(a) + (if is_leap(a) { 366int } else { 365int }) <= days_before_year(b),
    decreases b - a,
{
    lemma_leap_steps(b - 1);
    if a < b - 1 {
        lemma_years_apart(a, b - 1);
    }
}

proof fn lemma_months_apart(year: int, a: int, b: int)
    requires
        1 <= a < b,
    ensures
        days_before_month(year, a) + month_days(year, a) <= days_before_month(year, b),
    decreases b - a,
{
    if a < b - 1 {
        lemma_months_apart(year, a, b - 1);
    }
}

proof fn lemma_year_total(year: int)
    ensures
        days_before_month(year, 12) + 31 == if is_leap(year) { 366int } else { 365int },
{
    reveal_with_fuel(days_before_month, 13);
}

/// The order of dates is the order of their day numbers.
pub proof fn law_order_is_day_order(a: Date, b: Date)
    requires
        a.valid(),
        b.valid(),
    ensures
        a.before(b) <==> a.number() < b.number(),
        a.number() == b.number() ==> a == b,
{
    if a.before(b) {
        lemma_before(a, b);
    }
    if b.before(a) {
        lemma_before(b, a);
    }
    if !a.before(b) && !b.before(a) {
        assert(a == b);
    }
}

proof fn lemma_before(a: Date, b: Date)
    requires
        a.valid(),
        b.valid(),
        a.before(b),
    ensures
        a.number() < b.number(),
{
    let (y, z) = (a.year as int, b.year as int);
    if y < z {
        lemma_years_apart(y, z);
        lemma_year_total(y);
        if a.month < 12 {
            lemma_months_apart(y, a.month as int, 12);
        }
        lemma_month_start(z, b.month as int);
    } else if a.month < b.month {
        lemma_months_apart(y, a.month as int, b.month as int);
    }
}

proof fn lemma_month_start(year: int, month: int)
    ensures
        0 <= days_before_month(year, month),
    decreases month,
{
    if month > 1 {
        lemma_month_start(year, month - 1);
    }
}

/// The day numbers of the calendar lie within a hundred million of zero.
pub proof fn law_day_numbers_are_bounded(d: Date)
    requires
        d.valid(),
    ensures
        -100_000_000 < d.number() < 100_000_000,
{
    let y = d.year as int;
    lemma_year_total(y);
    lemma_month_start(y, d.month as int);
    if d.month < 12 {
        lemma_months_apart(y, d.month as int, 12);
    }
}

/// A date some months later, with at least one month, is a date of the calendar and comes after.
pub proof fn law_months_later_is_later(d: Date, months: int)
    requires
        d.valid(),
        months >= 1,
    ensures
        d.months_later(months) matches Some(x) ==> x.valid() && d.before(x),
{
    let total = d.year * 12 + d.month - 1 + months;
    assert(total / 12 >= d.year);
    assert(total / 12 == d.year ==> total % 12 + 1 > d.month);
}

/// The date of a day number is the one date with that number.
pub proof fn law_date_of_day(d: Date)
    requires
        d.valid(),
    ensures
        date_of_day(d.number()) == d,
{
    let x = date_of_day(d.number());
    assert(x.valid() && x.number() == d.number());
    law_order_is_day_order(x, d);
}

/// The day numbers of the calendar's dates are those of the calendar.
pub proof fn law_dates_lie_in_the_calendar(d: Date)
    requires
        d.valid(),
    ensures
        in_calendar(d.number()),
{
    let y = d.year as int;
    lemma_year_total(y);
    lemma_month_start(y, d.month as int);
    if d.month < 12 {
        lemma_months_apart(y, d.month as int, 12);
    }
    lemma_leap_steps(y);
    if MIN_YEAR < y {
        lemma_years_apart(MIN_YEAR as int, y);
    }
    if y < MAX_YEAR {
        lemma_years_apart(y + 1, MAX_YEAR + 1);
    }
}

} // verus!

//! Calendar dates without a time of day.
//!
//! A [`ReleaseDate`] holds a year, a month and a day that name a day of the
//! proleptic Gregorian calendar. Whether three numbers name a day, how a date
//! is written and which second of the Unix epoch it starts at are asked of
//! `chrono`; the contracts of those calls say in closed form what `chrono`
//! answers.

use chrono::Datelike;
use vstd::prelude::*;
use crate::decimal::{decimal, digit_char};

verus! {

/// The first year that a date can have.
pub const MIN_YEAR: i32 = -262143;

/// The last year that a date can have.
pub const MAX_YEAR: i32 = 262142;

/// The number of seconds in a day.
pub const SECONDS_PER_DAY: i64 = 86400;

/// Whether `year` has a 29th of February.
pub open spec fn is_leap_year(year: int) -> bool {
    year % 4 == 0 && (year % 100 != 0 || year % 400 == 0)
}

/// The number of days of a month.
pub open spec fn days_in_month(year: int, month: int) -> int {
    if month == 2 {
        if is_leap_year(year) {
            29
        } else {
            28
        }
    } else if month == 4 || month == 6 || month == 9 || month == 11 {
        30
    } else {
        31
    }
}

/// Whether the three numbers name a day of the calendar, in a year that a
/// date can have.
pub open spec fn is_calendar_date(year: int, month: int, day: int) -> bool {
    &&& MIN_YEAR <= year <= MAX_YEAR
    &&& 1 <= month <= 12
    &&& 1 <= day <= days_in_month(year, month)
}

/// The number of days of `year` that lie before its month `month`.
pub open spec fn days_before_month(year: int, month: int) -> int
    decreases month,
{
    if month <= 1 {
        0
    } else {
        days_before_month(year, month - 1) + days_in_month(year, month - 1)
    }
}

/// The number of days between the first day of year 1 and the first day of
/// `year`; negative for a year before year 1.
pub open spec fn days_before_year(year: int) -> int {
    365 * (year - 1) + (year - 1) / 4 - (year - 1) / 100 + (year - 1) / 400
}

/// The number of days from 1970-01-01 to the given date; negative for a
/// date before it.
pub open spec fn days_since_epoch(year: int, month: int, day: int) -> int {
    days_before_year(year) + days_before_month(year, month) + (day - 1) - 719162
}

/// The second of the Unix epoch at which the given date starts.
pub open spec fn date_timestamp(year: int, month: int, day: int) -> int {
    SECONDS_PER_DAY * days_since_epoch(year, month, day)
}

/// A number below 100 in two digits.
pub open spec fn two_digits(n: int) -> Seq<char> {
    seq![digit_char(n / 10), digit_char(n % 10)]
}

/// The digits of `n`, with zeros in front where there are fewer than four.
pub open spec fn four_or_more_digits(n: nat) -> Seq<char> {
    if n < 10 {
        seq!['0', '0', '0'] + decimal(n)
    } else if n < 100 {
        seq!['0', '0'] + decimal(n)
    } else if n < 1000 {
        seq!['0'] + decimal(n)
    } else {
        decimal(n)
    }
}

/// How a year is written: in four digits from 0 to 9999, else with its sign
/// and at least four digits.
pub open spec fn year_text(year: int) -> Seq<char> {
    if 0 <= year <= 9999 {
        two_digits(year / 100) + two_digits(year % 100)
    } else if year < 0 {
        seq!['-'] + four_or_more_digits((-year) as nat)
    } else {
        seq!['+'] + four_or_more_digits(year as nat)
    }
}

/// How a date is written: year, month and day, with `-` between them.
pub open spec fn date_text(year: int, month: int, day: int) -> Seq<char> {
    year_text(year) + seq!['-'] + two_digits(month) + seq!['-'] + two_digits(day)
}

/// `chrono::NaiveDate::from_ymd_opt`, asked only whether it gives a date.
/// Claimed: it does exactly for the days of the proleptic Gregorian calendar
/// in the years -262143 to 262142.
#[verifier::external_body]
fn chrono_date_exists(year: i32, month: u32, day: u32) -> (exists: bool)
    ensures
        exists == is_calendar_date(year as int, month as int, day as int),
{
    chrono::NaiveDate::from_ymd_opt(year, month, day).is_some()
}

/// `Display` of `chrono::NaiveDate` through `to_string`. Claimed: the year
/// in four digits (outside 0 to 9999 with a sign and zero-padded to four
/// digits), the month and the day in two digits each, joined by `-`.
#[verifier::external_body]
fn chrono_date_text(year: i32, month: u32, day: u32) -> (text: String)
    requires
        is_calendar_date(year as int, month as int, day as int),
    ensures
        text@ == date_text(year as int, month as int, day as int),
{
    chrono::NaiveDate::from_ymd_opt(year, month, day).unwrap().to_string()
}

/// `chrono::DateTime::<Utc>::timestamp` of the date's midnight. Claimed: the
/// number of days from 1970-01-01 to the date, times 86400.
#[verifier::external_body]
fn chrono_date_timestamp(year: i32, month: u32, day: u32) -> (secs: i64)
    requires
        is_calendar_date(year as int, month as int, day as int),
    ensures
        secs == date_timestamp(year as int, month as int, day as int),
{
    chrono::NaiveDate::from_ymd_opt(year, month, day).unwrap().and_hms_opt(
        0,
        0,
        0,
    ).unwrap().and_utc().timestamp()
}

/// `chrono::DateTime::from_timestamp` with no nanoseconds, then
/// `date_naive`. Claimed: the date within which the second lies, and none
/// exactly when the second lies before the first or after the last date
/// that there is.
#[verifier::external_body]
fn chrono_timestamp_date(secs: i64) -> (date: Option<(i32, u32, u32)>)
    ensures
        date is None <==> secs < date_timestamp(MIN_YEAR as int, 1, 1) || secs >= date_timestamp(
            MAX_YEAR as int,
            12,
            31,
        ) + SECONDS_PER_DAY,
        date matches Some(d) ==> is_calendar_date(d.0 as int, d.1 as int, d.2 as int)
            && date_timestamp(d.0 as int, d.1 as int, d.2 as int) <= secs < date_timestamp(
            d.0 as int,
            d.1 as int,
            d.2 as int,
        ) + SECONDS_PER_DAY,
{
    match chrono::DateTime::from_timestamp(secs, 0) {
        Some(moment) => {
            let date = moment.date_naive();
            Some((date.year(), date.month(), date.day()))
        },
        None => None,
    }
}

/// A day of the calendar.
#[derive(Debug, Clone, Copy, PartialEq, Eq, Structural)]
pub struct ReleaseDate {
    year: i32,
    month: u32,
    day: u32,
}

impl ReleaseDate {
    /// The year of the date.
    pub closed spec fn spec_year(self) -> int {
        self.year as int
    }

    /// The month of the date, from 1.
    pub closed spec fn spec_month(self) -> int {
        self.month as int
    }

    /// The day of the date within its month, from 1.
    pub closed spec fn spec_day(self) -> int {
        self.day as int
    }

    /// The date that the three numbers name.
    pub closed spec fn from_ymd(year: int, month: int, day: int) -> ReleaseDate {
        ReleaseDate { year: year as i32, month: month as u32, day: day as u32 }
    }

    /// The date that three numbers name has them as its year, month and day.
    pub proof fn lemma_from_ymd(year: int, month: int, day: int)
        requires
            is_calendar_date(year, month, day),
        ensures
            Self::from_ymd(year, month, day).wf(),
            Self::from_ymd(year, month, day).spec_year() == year,
            Self::from_ymd(year, month, day).spec_month() == month,
            Self::from_ymd(year, month, day).spec_day() == day,
    {
    }

    /// A date is the one that its year, month and day name.
    pub proof fn lemma_ymd(self)
        ensures
            self == Self::from_ymd(self.spec_year(), self.spec_month(), self.spec_day()),
    {
    }

    /// A date names a day of the calendar.
    #[verifier::type_invariant]
    pub open spec fn wf(self) -> bool {
        is_calendar_date(self.spec_year(), self.spec_month(), self.spec_day())
    }

    /// How the date is written.
    pub open spec fn text(self) -> Seq<char> {
        date_text(self.spec_year(), self.spec_month(), self.spec_day())
    }

    /// The second of the Unix epoch at which the date starts.
    pub open spec fn timestamp(self) -> int {
        date_timestamp(self.spec_year(), self.spec_month(), self.spec_day())
    }

    /// The first day of the Unix epoch, which also stands for a date that
    /// could not be read.
    pub fn epoch() -> (date: ReleaseDate)
        ensures
            date == Self::from_ymd(1970, 1, 1),
            date.wf(),
    {
        ReleaseDate { year: 1970, month: 1, day: 1 }
    }

    /// The date of the given year, month and day, if there is that day.
    pub fn new(year: i32, month: u32, day: u32) -> (date: Option<ReleaseDate>)
        ensures
            date is Some <==> is_calendar_date(year as int, month as int, day as int),
            date matches Some(d) ==> d.wf() && d == Self::from_ymd(
                year as int,
                month as int,
                day as int,
            ),
    {
        if chrono_date_exists(year, month, day) {
            Some(ReleaseDate { year, month, day })
        } else {
            None
        }
    }

    pub fn year(&self) -> (year: i32)
        ensures
            year == self.spec_year(),
    {
        self.year
    }

    pub fn month(&self) -> (month: u32)
        ensures
            month == self.spec_month(),
    {
        self.month
    }

    pub fn day(&self) -> (day: u32)
        ensures
            day == self.spec_day(),
    {
        self.day
    }

    /// The date as text, such as `2006-01-01`.
    pub fn to_text(&self) -> (text: String)
        ensures
            text@ == self.text(),
    {
        proof {
            use_type_invariant(self);
        }
        chrono_date_text(self.year, self.month, self.day)
    }

    /// The second of the Unix epoch at which the date starts.
    pub fn as_timestamp(&self) -> (secs: i64)
        ensures
            secs == self.timestamp(),
    {
        proof {
            use_type_invariant(self);
        }
        chrono_date_timestamp(self.year, self.month, self.day)
    }

    /// The date within which the second `secs` of the Unix epoch lies, if
    /// there is such a date.
    pub fn from_timestamp(secs: i64) -> (date: Option<ReleaseDate>)
        ensures
            date is None <==> secs < date_timestamp(MIN_YEAR as int, 1, 1) || secs
                >= date_timestamp(MAX_YEAR as int, 12, 31) + SECONDS_PER_DAY,
            date matches Some(d) ==> d.wf() && d.timestamp() <= secs < d.timestamp()
                + SECONDS_PER_DAY,
    {
        match chrono_timestamp_date(secs) {
            Some((year, month, day)) => Some(ReleaseDate { year, month, day }),
            None => None,
        }
    }
}

/// The number of days of a year.
pub open spec fn days_in_year(year: int) -> int {
    if is_leap_year(year) {
        366
    } else {
        365
    }
}

/// Whether the first date lies before the second.
pub open spec fn date_before(y1: int, m1: int, d1: int, y2: int, m2: int, d2: int) -> bool {
    y1 < y2 || (y1 == y2 && (m1 < m2 || (m1 == m2 && d1 < d2)))
}

proof fn lemma_months(year: int, a: int, b: int)
    requires
        1 <= a <= b <= 13,
    ensures
        days_before_month(year, a) + 28 * (b - a) <= days_before_month(year, b),
        days_before_month(year, 13) == days_in_year(year),
        0 <= days_before_month(year, a),
    decreases b - a,
{
    reveal_with_fuel(days_before_month, 14);
    if a < b {
        lemma_months(year, a, b - 1);
    }
}

proof fn lemma_years(a: int, b: int)
    requires
        a <= b,
    ensures
        days_before_year(a + 1) == days_before_year(a) + days_in_year(a),
        days_before_year(a) + 365 * (b - a) <= days_before_year(b),
    decreases b - a,
{
    if a < b {
        lemma_years(a, b - 1);
        lemma_years(b - 1, b - 1);
    }
}

/// An earlier date starts at an earlier second.
pub proof fn lemma_timestamp_grows(y1: int, m1: int, d1: int, y2: int, m2: int, d2: int)
    requires
        is_calendar_date(y1, m1, d1),
        is_calendar_date(y2, m2, d2),
        date_before(y1, m1, d1, y2, m2, d2),
    ensures
        date_timestamp(y1, m1, d1) + SECONDS_PER_DAY <= date_timestamp(y2, m2, d2),
{
    lemma_months(y1, m1, m1 + 1);
    lemma_months(y1, m1 + 1, 13);
    lemma_months(y2, 1, m2);
    if y1 < y2 {
        lemma_years(y1, y1);
        lemma_years(y1 + 1, y2);
    } else if m1 < m2 {
        lemma_months(y1, m1 + 1, m2);
    }
}

/// Each second lies within one date at most.
pub proof fn lemma_one_date_per_second(a: ReleaseDate, b: ReleaseDate, secs: int)
    requires
        a.wf(),
        b.wf(),
        a.timestamp() <= secs < a.timestamp() + SECONDS_PER_DAY,
        b.timestamp() <= secs < b.timestamp() + SECONDS_PER_DAY,
    ensures
        a == b,
{
    let (y1, m1, d1) = (a.spec_year(), a.spec_month(), a.spec_day());
    let (y2, m2, d2) = (b.spec_year(), b.spec_month(), b.spec_day());
    if date_before(y1, m1, d1, y2, m2, d2) {
        lemma_timestamp_grows(y1, m1, d1, y2, m2, d2);
    } else if date_before(y2, m2, d2, y1, m1, d1) {
        lemma_timestamp_grows(y2, m2, d2, y1, m1, d1);
    }
}

/// The second at which a date starts is one that has a date, and lies
/// within no other date: a date that is written down as its timestamp is
/// read back as itself.
pub proof fn lemma_timestamp_round_trip(date: ReleaseDate, back: ReleaseDate)
    requires
        date.wf(),
    ensures
        date_timestamp(MIN_YEAR as int, 1, 1) <= date.timestamp() < date_timestamp(
            MAX_YEAR as int,
            12,
            31,
        ) + SECONDS_PER_DAY,
        back.wf() && back.timestamp() <= date.timestamp() < back.timestamp() + SECONDS_PER_DAY
            ==> back == date,
{
    let (y, m, d) = (date.spec_year(), date.spec_month(), date.spec_day());
    if date_before(MIN_YEAR as int, 1, 1, y, m, d) {
        lemma_timestamp_grows(MIN_YEAR as int, 1, 1, y, m, d);
    }
    if date_before(y, m, d, MAX_YEAR as int, 12, 31) {
        lemma_timestamp_grows(y, m, d, MAX_YEAR as int, 12, 31);
    }
    if back.wf() && back.timestamp() <= date.timestamp() < back.timestamp() + SECONDS_PER_DAY {
        lemma_one_date_per_second(back, date, date.timestamp());
    }
}

} // verus!

//! Calendar days: the unit by which usage is kept and queried.

use crate::text::{push_zero_padded, zero_padded};
use chrono::Datelike;
use vstd::prelude::*;
use vstd::string::StringExecFns;

verus! {

/// A year, a month and a day as plain numbers: what a `Date` stands for.
pub struct Ymd {
    pub year: int,
    pub month: int,
    pub day: int,
}

/// The first year that a `Date` can hold.
pub const MIN_YEAR: i32 = -262143;

/// The last year that a `Date` can hold.
pub const MAX_YEAR: i32 = 262142;

/// Whether year `y` of the proleptic Gregorian calendar has a 29th of February.
pub open spec fn is_leap_year(y: int) -> bool {
    y % 4 == 0 && (y % 100 != 0 || y % 400 == 0)
}

/// The number of days of month `m` in year `y`.
pub open spec fn days_in_month(y: int, m: int) -> int {
    if m == 2 {
        if is_leap_year(y) {
            29
        } else {
            28
        }
    } else if m == 4 || m == 6 || m == 9 || m == 11 {
        30
    } else {
        31
    }
}

/// Whether `v` names a day of the calendar within the years that a `Date` can hold.
pub open spec fn valid_ymd(v: Ymd) -> bool {
    &&& MIN_YEAR <= v.year <= MAX_YEAR
    &&& 1 <= v.month <= 12
    &&& 1 <= v.day <= days_in_month(v.year, v.month)
}

/// Whether day `a` comes before day `b`.
pub open spec fn before(a: Ymd, b: Ymd) -> bool {
    a.year < b.year || (a.year == b.year && (a.month < b.month || (a.month == b.month && a.day
        < b.day)))
}

/// Whether day `d` lies between `start` and `end`, both included.
pub open spec fn within(d: Ymd, start: Ymd, end: Ymd) -> bool {
    !before(d, start) && !before(end, d)
}

/// A number that grows with the calendar: a later day has a larger one.
pub open spec fn day_rank(d: Ymd) -> int {
    (d.year - MIN_YEAR) * 10000 + d.month * 100 + d.day
}

/// Days that exist are ordered as their ranks are.
pub proof fn lemma_day_rank(a: Ymd, b: Ymd)
    requires
        valid_ymd(a),
        valid_ymd(b),
    ensures
        before(a, b) <==> day_rank(a) < day_rank(b),
        a == b <==> day_rank(a) == day_rank(b),
{
}

/// The year of a day as text: four digits, and a sign before years outside `0..=9999`.
pub open spec fn year_text(y: int) -> Seq<char> {
    if 0 <= y <= 9999 {
        zero_padded(y as nat, 4)
    } else if y < 0 {
        seq!['-'] + zero_padded((-y) as nat, 4)
    } else {
        seq!['+'] + zero_padded(y as nat, 4)
    }
}

/// A day as text: year, month and day with hyphens between them, such as `2024-01-31`.
pub open spec fn iso_text(d: Ymd) -> Seq<char> {
    year_text(d.year) + seq!['-'] + zero_padded(d.month as nat, 2) + seq!['-'] + zero_padded(
        d.day as nat,
        2,
    )
}

/// What `chrono` gives for the day that lies `days` days after `date` (before it, where `days`
/// is negative), or `None` where that day is out of its range.
pub uninterp spec fn date_plus_days(date: Ymd, days: int) -> Option<Ymd>;

/// What `chrono` gives for the number of days from the Monday of `date`'s week to `date`.
pub uninterp spec fn weekday_from_monday(date: Ymd) -> int;

/// A day of the proleptic Gregorian calendar.
#[derive(Clone, Copy, Debug, PartialEq, Eq, Structural)]
pub struct Date {
    year: i32,
    month: u32,
    day: u32,
}

impl View for Date {
    type V = Ymd;

    closed spec fn view(&self) -> Ymd {
        Ymd { year: self.year as int, month: self.month as int, day: self.day as int }
    }
}

/// Whether year `year` has a 29th of February.
pub fn leap_year(year: i32) -> (b: bool)
    ensures
        b == is_leap_year(year as int),
{
    let size: u32 = if year < 0 {
        ((0 - (year + 1)) as u32) + 1
    } else {
        year as u32
    };
    size % 4 == 0 && (size % 100 != 0 || size % 400 == 0)
}

/// The number of days of a month.
pub fn month_length(year: i32, month: u32) -> (n: u32)
    ensures
        n == days_in_month(year as int, month as int),
{
    if month == 2 {
        if leap_year(year) {
            29
        } else {
            28
        }
    } else if month == 4 || month == 6 || month == 9 || month == 11 {
        30
    } else {
        31
    }
}

impl Date {
    /// Every `Date` names a day that exists.
    #[verifier::type_invariant]
    pub open spec fn wf(self) -> bool {
        valid_ymd(self@)
    }

    /// The day with this year, month and day, where the calendar has it.
    pub fn from_ymd(year: i32, month: u32, day: u32) -> (r: Option<Date>)
        ensures
            r is Some <==> valid_ymd(
                Ymd { year: year as int, month: month as int, day: day as int },
            ),
            r matches Some(d) ==> d@ == (Ymd {
                year: year as int,
                month: month as int,
                day: day as int,
            }),
    {
        if year < MIN_YEAR || year > MAX_YEAR || month < 1 || month > 12 || day < 1 {
            return None;
        }
        if day > month_length(year, month) {
            return None;
        }
        Some(Date { year, month, day })
    }

    /// The year of the day.
    pub fn year(&self) -> (y: i32)
        ensures
            y == self@.year,
    {
        self.year
    }

    /// The month of the day, from 1 to 12.
    pub fn month(&self) -> (m: u32)
        ensures
            m == self@.month,
    {
        self.month
    }

    /// The day of the month, from 1.
    pub fn day(&self) -> (d: u32)
        ensures
            d == self@.day,
    {
        self.day
    }

    /// Two dates that stand for the same day are the same date.
    pub proof fn lemma_view_injective(self, other: Date)
        requires
            self@ == other@,
        ensures
            self == other,
    {
    }

    /// A number that grows with the calendar: a later day has a larger one.
    pub fn rank(&self) -> (r: u64)
        ensures
            r == day_rank(self@),
    {
        proof {
            use_type_invariant(self);
        }
        ((self.year - MIN_YEAR) as u64) * 10000 + (self.month as u64) * 100 + (self.day as u64)
    }

    /// Whether this day comes before `other`.
    pub fn is_before(&self, other: &Date) -> (b: bool)
        ensures
            b == before(self@, other@),
    {
        self.year < other.year || (self.year == other.year && (self.month < other.month || (
        self.month == other.month && self.day < other.day)))
    }

    /// Whether this day lies between `start` and `end`, both included.
    pub fn is_within(&self, start: &Date, end: &Date) -> (b: bool)
        ensures
            b == within(self@, start@, end@),
    {
        !self.is_before(start) && !end.is_before(self)
    }

    /// The day as text, such as `2024-01-31`.
    pub fn to_string(&self) -> (s: String)
        ensures
            s@ == iso_text(self@),
    {
        proof {
            use_type_invariant(self);
            reveal_strlit("-");
            reveal_strlit("+");
            reveal_strlit("");
            assert("-"@ =~= seq!['-']);
            assert("+"@ =~= seq!['+']);
        }
        let mut s = String::new();
        if self.year < 0 {
            s.append("-");
            push_zero_padded(&mut s, (0 - self.year) as u64, 4);
        } else {
            if self.year > 9999 {
                s.append("+");
            }
            push_zero_padded(&mut s, self.year as u64, 4);
        }
        assert(s@ =~= year_text(self@.year));
        s.append("-");
        push_zero_padded(&mut s, self.month as u64, 2);
        s.append("-");
        push_zero_padded(&mut s, self.day as u64, 2);
        assert(s@ =~= iso_text(self@));
        s
    }

    /// The number of days from the Monday of this day's week to this day: 0 for a Monday, 6
    /// for a Sunday.
    pub fn days_from_monday(&self) -> (n: u32)
        ensures
            n == weekday_from_monday(self@),
            n < 7,
    {
        match monday_offset(self) {
            Some(n) => n,
            None => 0,
        }
    }

    /// The day that lies `days` days after this one (before it, where `days` is negative), where
    /// it is within the years that a `Date` can hold.
    pub fn plus_days(&self, days: i64) -> (r: Option<Date>)
        ensures
            r is Some <==> date_plus_days(self@, days as int) is Some,
            r matches Some(d) ==> date_plus_days(self@, days as int) == Some(d@),
    {
        shifted_by_days(self, days)
    }
}

/// `chrono::Weekday::num_days_from_monday`, applied to the weekday of `date`
/// (`Datelike::weekday`). Trusted: the result is the one that `chrono` computes for this day,
/// it is below seven, and there is a result for every day that exists.
#[verifier::external_body]
fn monday_offset(date: &Date) -> (r: Option<u32>)
    ensures
        r is Some,
        r matches Some(n) ==> n == weekday_from_monday(date@) && n < 7,
{
    let day = chrono::NaiveDate::from_ymd_opt(date.year, date.month, date.day)?;
    Some(day.weekday().num_days_from_monday())
}

/// `chrono::Local::now`, and the calendar day of what it returns (`DateTime::date_naive`).
/// Trusted: the day exists in the calendar. Which day it is depends on the clock and on the
/// time zone of the machine, so nothing more is said of it.
#[verifier::external_body]
pub(crate) fn clock_today() -> (d: Date)
    ensures
        valid_ymd(d@),
{
    let now = chrono::Local::now().date_naive();
    Date { year: now.year(), month: now.month(), day: now.day() }
}

/// `chrono::NaiveDate::checked_add_signed`, applied to `date` and a span of `days` whole days
/// (`chrono::TimeDelta::try_days`). Trusted: the result is the one that `chrono` computes for
/// these two values, and it is `None` where `chrono` has no such span or no such day.
#[verifier::external_body]
fn shifted_by_days(date: &Date, days: i64) -> (r: Option<Date>)
    ensures
        r is Some <==> date_plus_days(date@, days as int) is Some,
        r matches Some(d) ==> date_plus_days(date@, days as int) == Some(d@),
{
    let start = chrono::NaiveDate::from_ymd_opt(date.year, date.month, date.day)?;
    let moved = start.checked_add_signed(chrono::TimeDelta::try_days(days)?)?;
    Some(Date { year: moved.year(), month: moved.month(), day: moved.day() })
}

} // verus!

//! Calendar dates of the proleptic Gregorian calendar.
//!
//! Reading a date out of text and reading the clock are left to `chrono`;
//! order, neighbours, steps by days and the `YYYY-MM-DD` notation are
//! verified here.

use crate::text::{join2, join3, padded, padded_text};
use chrono::Datelike;
use vstd::prelude::*;

verus! {

/// A day, by year, month (1 to 12) and day of the month (from 1).
#[derive(Clone, Copy, Debug, PartialEq, Eq, Structural)]
pub struct CalendarDate {
    pub year: i32,
    pub month: u32,
    pub day: u32,
}

/// Whether `year` has a 29th of February.
pub open spec fn is_leap_year(year: int) -> bool {
    year % 4 == 0 && (year % 100 != 0 || year % 400 == 0)
}

/// The number of days of month `month` of `year`.
pub open spec fn days_in_month(year: int, month: int) -> int {
    if month == 2 {
        if is_leap_year(year) {
            29
        } else {
            28
        }
    } else if month == 4 || month == 6 || month == 9 || month == 11 {
        30
    } else {
        31
    }
}

/// What `NaiveDate::parse_from_str` with the format `%Y-%m-%d` reads out of
/// `text`: year, month and day, or `None` where it reports an error.
pub uninterp spec fn parsed_ymd(text: Seq<char>) -> Option<(int, int, int)>;

/// The day of the moment that `DateTime::parse_from_rfc2822` reads out of
/// `text`, in the offset that `text` names: year, month and day, or `None`
/// where it reports an error.
pub uninterp spec fn parsed_rfc2822(text: Seq<char>) -> Option<(int, int, int)>;

/// The day that three numbers name.
pub open spec fn day_of(ymd: (int, int, int)) -> CalendarDate {
    CalendarDate { year: ymd.0 as i32, month: ymd.1 as u32, day: ymd.2 as u32 }
}

/// A year as it is written in a date: four digits for the years 0 to 9999;
/// a sign and at least four digits for the years outside them.
pub open spec fn year_text(year: int) -> Seq<char> {
    if 0 <= year <= 9999 {
        padded(year as nat, 4)
    } else if year > 9999 {
        seq!['+'] + padded(year as nat, 4)
    } else {
        seq!['-'] + padded((-year) as nat, 4)
    }
}

/// Whether year, month and day name a day of the calendar.
pub open spec fn is_calendar_day(year: int, month: int, day: int) -> bool {
    1 <= month <= 12 && 1 <= day <= days_in_month(year, month)
}

impl CalendarDate {
    /// Whether the three numbers name a day of the calendar.
    pub open spec fn is_valid(self) -> bool {
        is_calendar_day(self.year as int, self.month as int, self.day as int)
    }

    /// Whether `self` is an earlier day than `other`.
    pub open spec fn precedes(self, other: CalendarDate) -> bool {
        self.year < other.year || (self.year == other.year && (self.month < other.month || (
        self.month == other.month && self.day < other.day)))
    }

    /// Whether `self` lies in the closed range from `first` to `last`.
    pub open spec fn within(self, first: CalendarDate, last: CalendarDate) -> bool {
        !self.precedes(first) && !last.precedes(self)
    }

    /// The day after `self`; the last day of the last year that the type can
    /// hold has none, and stands for its own.
    pub open spec fn next(self) -> CalendarDate {
        if self.day < days_in_month(self.year as int, self.month as int) {
            CalendarDate { year: self.year, month: self.month, day: (self.day + 1) as u32 }
        } else if self.month < 12 {
            CalendarDate { year: self.year, month: (self.month + 1) as u32, day: 1 }
        } else if self.year < i32::MAX {
            CalendarDate { year: (self.year + 1) as i32, month: 1, day: 1 }
        } else {
            self
        }
    }

    /// The day before `self`; the first day of the first year that the type
    /// can hold has none, and stands for its own.
    pub open spec fn previous(self) -> CalendarDate {
        if self.day > 1 {
            CalendarDate { year: self.year, month: self.month, day: (self.day - 1) as u32 }
        } else if self.month > 1 {
            CalendarDate {
                year: self.year,
                month: (self.month - 1) as u32,
                day: days_in_month(self.year as int, self.month - 1) as u32,
            }
        } else if self.year > i32::MIN {
            CalendarDate { year: (self.year - 1) as i32, month: 12, day: 31 }
        } else {
            self
        }
    }

    /// The day `n` days after `self`.
    pub open spec fn later(self, n: nat) -> CalendarDate
        decreases n,
    {
        if n == 0 {
            self
        } else {
            self.later((n - 1) as nat).next()
        }
    }

    /// The day `n` days before `self`.
    pub open spec fn earlier(self, n: nat) -> CalendarDate
        decreases n,
    {
        if n == 0 {
            self
        } else {
            self.earlier((n - 1) as nat).previous()
        }
    }

    /// `self` written `YYYY-MM-DD`, each part padded with zeros.
    pub open spec fn iso(self) -> Seq<char> {
        year_text(self.year as int) + seq!['-'] + padded(self.month as nat, 2) + seq!['-']
            + padded(self.day as nat, 2)
    }

    /// Whether `self` is an earlier day than `other`.
    pub fn is_before(&self, other: &CalendarDate) -> (r: bool)
        ensures
            r == self.precedes(*other),
    {
        self.year < other.year || (self.year == other.year && (self.month < other.month || (
        self.month == other.month && self.day < other.day)))
    }

    /// Whether `self` lies in the closed range from `first` to `last`.
    pub fn is_within(&self, first: &CalendarDate, last: &CalendarDate) -> (r: bool)
        ensures
            r == self.within(*first, *last),
    {
        !self.is_before(first) && !last.is_before(self)
    }

    /// The day after `self`.
    pub fn succ(&self) -> (r: CalendarDate)
        ensures
            r == self.next(),
            self.is_valid() ==> r.is_valid(),
            self.is_valid() && self.year < i32::MAX ==> self.precedes(r),
    {
        if self.day < month_length(self.year, self.month) {
            CalendarDate { year: self.year, month: self.month, day: self.day + 1 }
        } else if self.month < 12 {
            CalendarDate { year: self.year, month: self.month + 1, day: 1 }
        } else if self.year < i32::MAX {
            CalendarDate { year: self.year + 1, month: 1, day: 1 }
        } else {
            *self
        }
    }

    /// The day before `self`.
    pub fn pred(&self) -> (r: CalendarDate)
        ensures
            r == self.previous(),
            self.is_valid() ==> r.is_valid(),
            self.is_valid() && self.year > i32::MIN ==> r.precedes(*self),
    {
        if self.day > 1 {
            CalendarDate { year: self.year, month: self.month, day: self.day - 1 }
        } else if self.month > 1 {
            CalendarDate {
                year: self.year,
                month: self.month - 1,
                day: month_length(self.year, self.month - 1),
            }
        } else if self.year > i32::MIN {
            CalendarDate { year: self.year - 1, month: 12, day: 31 }
        } else {
            *self
        }
    }

    /// The day `n` days after `self`.
    pub fn plus_days(&self, n: u32) -> (r: CalendarDate)
        ensures
            r == self.later(n as nat),
            self.is_valid() ==> r.is_valid(),
    {
        let mut day = *self;
        let mut i: u32 = 0;
        while i < n
            invariant
                i <= n,
                day == self.later(i as nat),
                self.is_valid() ==> day.is_valid(),
            decreases n - i,
        {
            day = day.succ();
            i += 1;
        }
        day
    }

    /// The day `n` days before `self`.
    pub fn minus_days(&self, n: u32) -> (r: CalendarDate)
        ensures
            r == self.earlier(n as nat),
            self.is_valid() ==> r.is_valid(),
    {
        let mut day = *self;
        let mut i: u32 = 0;
        while i < n
            invariant
                i <= n,
                day == self.earlier(i as nat),
                self.is_valid() ==> day.is_valid(),
            decreases n - i,
        {
            day = day.pred();
            i += 1;
        }
        day
    }

    /// `self` written `YYYY-MM-DD`.
    pub fn iso_text(&self) -> (r: String)
        ensures
            r@ == self.iso(),
    {
        proof {
            reveal_strlit("-");
            reveal_strlit("+");
            assert("-"@ =~= seq!['-']);
            assert("+"@ =~= seq!['+']);
        }
        let year = if 0 <= self.year && self.year <= 9999 {
            padded_text(self.year as u64, 4)
        } else if self.year > 9999 {
            join2("+", padded_text(self.year as u64, 4).as_str())
        } else {
            let size: u64 = (-(self.year as i64)) as u64;
            join2("-", padded_text(size, 4).as_str())
        };
        let month = padded_text(self.month as u64, 2);
        let day = padded_text(self.day as u64, 2);
        let head = join3(year.as_str(), "-", month.as_str());
        join3(head.as_str(), "-", day.as_str())
    }
}

/// Whether `year` has a 29th of February.
pub fn leap_year(year: i32) -> (r: bool)
    ensures
        r == is_leap_year(year as int),
{
    // 4 000 000 000 is a multiple of 400, so the shift keeps every remainder.
    let shifted: u64 = (year as i64 + 4_000_000_000) as u64;
    proof {
        vstd::arithmetic::div_mod::lemma_mod_multiples_vanish(1_000_000_000, year as int, 4);
        vstd::arithmetic::div_mod::lemma_mod_multiples_vanish(40_000_000, year as int, 100);
        vstd::arithmetic::div_mod::lemma_mod_multiples_vanish(10_000_000, year as int, 400);
    }
    shifted % 4 == 0 && (shifted % 100 != 0 || shifted % 400 == 0)
}

/// The number of days of month `month` of `year`.
pub fn month_length(year: i32, month: u32) -> (r: u32)
    ensures
        r == days_in_month(year as int, month as int),
{
    if month == 2 {
        if leap_year(year) {
            29
        } else {
            28
        }
    } else if month == 4 || month == 6 || month == 9 || month == 11 {
        30
    } else {
        31
    }
}

/// Reads a day out of `text` with `NaiveDate::parse_from_str` and the format
/// `%Y-%m-%d`, and takes year, month and day from the result. What is read is
/// named `parsed_ymd`; beside the name, only that a `NaiveDate` is a day of
/// the calendar.
#[verifier::external_body]
pub(crate) fn parse_ymd(text: &str) -> (r: Option<CalendarDate>)
    ensures
        match r {
            Some(d) => parsed_ymd(text@) == Some((d.year as int, d.month as int, d.day as int))
                && d.is_valid(),
            None => parsed_ymd(text@) is None,
        },
{
    chrono::NaiveDate::parse_from_str(text, "%Y-%m-%d").ok().map(
        |d| CalendarDate { year: d.year(), month: d.month(), day: d.day() },
    )
}

/// Reads a moment out of `text` with `DateTime::parse_from_rfc2822` and
/// takes year, month and day of its day, in the offset that `text` names.
/// What is read is named `parsed_rfc2822`; beside the name, only that the
/// day is a day of the calendar.
#[verifier::external_body]
pub(crate) fn parse_rfc2822(text: &str) -> (r: Option<CalendarDate>)
    ensures
        match r {
            Some(d) => parsed_rfc2822(text@) == Some(
                (d.year as int, d.month as int, d.day as int),
            ) && d.is_valid(),
            None => parsed_rfc2822(text@) is None,
        },
{
    chrono::DateTime::parse_from_rfc2822(text).ok().map(
        |d| CalendarDate { year: d.year(), month: d.month(), day: d.day() },
    )
}

/// Today: year, month and day of `Local::now().date_naive()`. The result
/// depends on the clock and the time zone; all that is claimed is that a
/// `NaiveDate` is a day of the calendar. `Local::now` panics where the
/// machine's clock stands before 1970, which no argument could leave out.
#[verifier::external_body]
pub(crate) fn today() -> (r: CalendarDate)
    ensures
        r.is_valid(),
{
    let now = chrono::Local::now().date_naive();
    CalendarDate { year: now.year(), month: now.month(), day: now.day() }
}

/// The leap years before `year`, counted from the year 1.
pub open spec fn leap_years_before(year: int) -> int {
    (year - 1) / 4 - (year - 1) / 100 + (year - 1) / 400
}

/// The days of `year` that lie before its month `month`.
pub open spec fn days_before_month(year: int, month: int) -> int {
    let leap: int = if is_leap_year(year) {
        1
    } else {
        0
    };
    if month <= 1 {
        0
    } else if month == 2 {
        31
    } else if month == 3 {
        59 + leap
    } else if month == 4 {
        90 + leap
    } else if month == 5 {
        120 + leap
    } else if month == 6 {
        151 + leap
    } else if month == 7 {
        181 + leap
    } else if month == 8 {
        212 + leap
    } else if month == 9 {
        243 + leap
    } else if month == 10 {
        273 + leap
    } else if month == 11 {
        304 + leap
    } else {
        334 + leap
    }
}

/// The days that lie before the first day of `year`, counted from the first
/// day of the year 1.
pub open spec fn days_before_year(year: int) -> int {
    365 * (year - 1) + leap_years_before(year)
}

/// The number of a day, counted from the first day of the year 1, which has
/// the number 1.
pub open spec fn day_number(day: CalendarDate) -> int {
    days_before_year(day.year as int) + days_before_month(day.year as int, day.month as int)
        + day.day
}

/// A year begins after the last day of the year before it.
pub proof fn lemma_year_follows_year(year: int)
    ensures
        days_before_year(year + 1) == days_before_year(year) + 365 + if is_leap_year(year) {
            1int
        } else {
            0int
        },
{
    lemma_multiples_are_counted(year, 4);
    lemma_multiples_are_counted(year, 100);
    lemma_multiples_are_counted(year, 400);
}

/// From one number to the next, the count of the multiples of `step` below
/// grows by one exactly at a multiple.
pub proof fn lemma_multiples_are_counted(n: int, step: int)
    requires
        step == 4 || step == 100 || step == 400,
    ensures
        n / step == (n - 1) / step + if n % step == 0 {
            1int
        } else {
            0int
        },
{
}

/// Later years begin later.
pub proof fn lemma_years_grow(early: int, late: int)
    requires
        early <= late,
    ensures
        days_before_year(late) >= days_before_year(early) + 365 * (late - early),
    decreases late - early,
{
    if early < late {
        lemma_years_grow(early, late - 1);
        lemma_year_follows_year(late - 1);
    }
}

/// The day after a day has the next number.
pub proof fn lemma_next_is_one_more(day: CalendarDate)
    requires
        day.is_valid(),
        day.year < i32::MAX,
    ensures
        day.next().is_valid(),
        day_number(day.next()) == day_number(day) + 1,
{
    if day.day >= days_in_month(day.year as int, day.month as int) && day.month >= 12 {
        lemma_year_follows_year(day.year as int);
    }
}

/// The day `n` days after a day has a number greater by `n`.
pub proof fn lemma_later_counts(day: CalendarDate, n: nat)
    requires
        day.is_valid(),
        day.year + n < i32::MAX,
    ensures
        day.later(n).is_valid(),
        day.later(n).year <= day.year + n,
        day_number(day.later(n)) == day_number(day) + n,
    decreases n,
{
    if n > 0 {
        lemma_later_counts(day, (n - 1) as nat);
        lemma_next_is_one_more(day.later((n - 1) as nat));
    }
}

/// An earlier day has a smaller number.
pub proof fn lemma_day_numbers_rise(early: CalendarDate, late: CalendarDate)
    requires
        early.is_valid(),
        late.is_valid(),
        early.precedes(late),
    ensures
        day_number(early) < day_number(late),
{
    if early.year < late.year {
        lemma_year_follows_year(early.year as int);
        lemma_years_grow(early.year + 1, late.year as int);
    }
}

/// Two days with one number are one day.
pub proof fn lemma_day_number_names_the_day(one: CalendarDate, other: CalendarDate)
    requires
        one.is_valid(),
        other.is_valid(),
        day_number(one) == day_number(other),
    ensures
        one == other,
{
    if one.precedes(other) {
        lemma_day_numbers_rise(one, other);
    } else if other.precedes(one) {
        lemma_day_numbers_rise(other, one);
    }
}

} // verus!

use vstd::prelude::*;

verus! {

use vstd::arithmetic::div_mod::lemma_mod_multiples_vanish;
use vstd::math::abs;

/// Mathematical model of a date on the proleptic Gregorian calendar.
pub ghost struct DateV {
    pub y: int,
    pub m: int,
    pub d: int,
}

pub open spec fn is_leap_year(y: int) -> bool {
    (y % 4 == 0 && y % 100 != 0) || y % 400 == 0
}

pub open spec fn days_in_month(y: int, m: int) -> int {
    if m == 2 {
        if is_leap_year(y) {
            29
        } else {
            28
        }
    } else if m == 4 || m == 6 || m == 9 || m == 11 {
        30
    } else {
        31
    }
}

impl DateV {
    /// A real calendar date: month in range, day in range for that month,
    /// February depending on the leap-year rule.
    pub open spec fn valid(self) -> bool {
        &&& 1 <= self.m <= 12
        &&& 1 <= self.d <= days_in_month(self.y, self.m)
    }
}

/// The successor date: the next day, rolling over month and year boundaries.
pub open spec fn next_date(v: DateV) -> DateV {
    if v.d < days_in_month(v.y, v.m) {
        DateV { y: v.y, m: v.m, d: v.d + 1 }
    } else if v.m < 12 {
        DateV { y: v.y, m: v.m + 1, d: 1 }
    } else {
        DateV { y: v.y + 1, m: 1, d: 1 }
    }
}

/// The predecessor date: the day before, rolling back over month and year
/// boundaries.
pub open spec fn prev_date(v: DateV) -> DateV {
    if v.d > 1 {
        DateV { y: v.y, m: v.m, d: v.d - 1 }
    } else if v.m > 1 {
        DateV { y: v.y, m: v.m - 1, d: days_in_month(v.y, v.m - 1) }
    } else {
        DateV { y: v.y - 1, m: 12, d: 31 }
    }
}

/// The date `n` days after `v` (before, for negative `n`).
pub open spec fn plus_days(v: DateV, n: int) -> DateV
    decreases abs(n),
{
    if n > 0 {
        plus_days(next_date(v), n - 1)
    } else if n < 0 {
        plus_days(prev_date(v), n + 1)
    } else {
        v
    }
}

pub proof fn lemma_next_date_valid(v: DateV)
    requires
        v.valid(),
    ensures
        next_date(v).valid(),
        v.y <= next_date(v).y <= v.y + 1,
{
}

pub proof fn lemma_prev_date_valid(v: DateV)
    requires
        v.valid(),
    ensures
        prev_date(v).valid(),
        v.y - 1 <= prev_date(v).y <= v.y,
{
}

/// A Gregorian calendar date as a plain (year, month, day) triple.
#[derive(Clone, Copy, Debug, PartialEq, Eq, Structural)]
pub struct CalendarDate {
    pub year: i32,
    pub month: u32,
    pub day: u32,
}

impl View for CalendarDate {
    type V = DateV;

    open spec fn view(&self) -> DateV {
        DateV { y: self.year as int, m: self.month as int, d: self.day as int }
    }
}

impl CalendarDate {
    pub open spec fn wf(self) -> bool {
        self@.valid()
    }

    pub fn from_ymd(year: i32, month: u32, day: u32) -> (r: CalendarDate)
        requires
            (DateV { y: year as int, m: month as int, d: day as int }).valid(),
        ensures
            r@ == (DateV { y: year as int, m: month as int, d: day as int }),
            r.wf(),
    {
        CalendarDate { year, month, day }
    }
}

/// Whether `year` is a leap year on the proleptic Gregorian calendar.
///
/// The year is shifted into the non-negative range by a multiple of 400
/// before taking remainders, so that machine remainders agree with the
/// mathematical (Euclidean) ones for every `i32` year.
pub fn leap_year(year: i32) -> (r: bool)
    ensures
        r == is_leap_year(year as int),
{
    let shifted: u64 = ((year as i64) + 2_400_000_000i64) as u64;
    proof {
        lemma_mod_multiples_vanish(600_000_000, year as int, 4);
        lemma_mod_multiples_vanish(24_000_000, year as int, 100);
        lemma_mod_multiples_vanish(6_000_000, year as int, 400);
    }
    (shifted % 4 == 0 && shifted % 100 != 0) || shifted % 400 == 0
}

/// Number of days in the given month of the given year.
pub fn month_length(year: i32, month: u32) -> (r: u32)
    requires
        1 <= month <= 12,
    ensures
        r == days_in_month(year as int, month as int),
{
    if month == 2 {
        if leap_year(year) {
            29
        } else {
            28
        }
    } else if month == 4 || month == 6 || month == 9 || month == 11 {
        30
    } else {
        31
    }
}

fn next_day(date: CalendarDate) -> (r: CalendarDate)
    requires
        date.wf(),
        date@.y < i32::MAX,
    ensures
        r@ == next_date(date@),
        r.wf(),
        date@.y <= r@.y <= date@.y + 1,
{
    proof {
        lemma_next_date_valid(date@);
    }
    let len = month_length(date.year, date.month);
    if date.day < len {
        CalendarDate { year: date.year, month: date.month, day: date.day + 1 }
    } else if date.month < 12 {
        CalendarDate { year: date.year, month: date.month + 1, day: 1 }
    } else {
        CalendarDate { year: date.year + 1, month: 1, day: 1 }
    }
}

fn prev_day(date: CalendarDate) -> (r: CalendarDate)
    requires
        date.wf(),
        i32::MIN < date@.y,
    ensures
        r@ == prev_date(date@),
        r.wf(),
        date@.y - 1 <= r@.y <= date@.y,
{
    proof {
        lemma_prev_date_valid(date@);
    }
    if date.day > 1 {
        CalendarDate { year: date.year, month: date.month, day: date.day - 1 }
    } else if date.month > 1 {
        let len = month_length(date.year, date.month - 1);
        CalendarDate { year: date.year, month: date.month - 1, day: len }
    } else {
        CalendarDate { year: date.year - 1, month: 12, day: 31 }
    }
}

/// Adds a signed day offset to a date, rolling over month and year
/// boundaries and accounting for leap years.
pub fn add_days(date: CalendarDate, offset: i64) -> (r: CalendarDate)
    requires
        date.wf(),
        -1000 <= offset <= 1000,
        -1_000_000 <= date@.y <= 1_000_000,
    ensures
        r@ == plus_days(date@, offset as int),
        r.wf(),
{
    let mut cur = date;
    if offset >= 0 {
        let mut left: i64 = offset;
        while left > 0
            invariant
                0 <= left <= offset <= 1000,
                cur.wf(),
                -1_000_000 <= date@.y <= 1_000_000,
                date@.y <= cur@.y <= date@.y + (offset - left),
                plus_days(cur@, left as int) == plus_days(date@, offset as int),
            decreases left,
        {
            proof {
                assert(plus_days(cur@, left as int) == plus_days(
                    next_date(cur@),
                    left as int - 1,
                ));
            }
            cur = next_day(cur);
            left = left - 1;
        }
    } else {
        let mut left: i64 = offset;
        while left < 0
            invariant
                -1000 <= offset <= left <= 0,
                cur.wf(),
                -1_000_000 <= date@.y <= 1_000_000,
                date@.y - (left - offset) <= cur@.y <= date@.y,
                plus_days(cur@, left as int) == plus_days(date@, offset as int),
            decreases -left,
        {
            proof {
                assert(plus_days(cur@, left as int) == plus_days(
                    prev_date(cur@),
                    left as int + 1,
                ));
            }
            cur = prev_day(cur);
            left = left + 1;
        }
    }
    cur
}

} // verus!

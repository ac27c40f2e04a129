use vstd::prelude::*;

verus! {

use vstd::arithmetic::div_mod::{lemma_fundamental_div_mod, lemma_mod_bound};
use crate::date::{CalendarDate, DateV};
use crate::error::HolidayError;

pub open spec fn spec_year_in_range(y: int) -> bool {
    1583 <= y <= 8202
}

/// The year range on which the Computus algorithm is defined: from the
/// adoption of the Gregorian calendar up to the validity limit of the
/// century and leap corrections used.
pub fn year_in_range(year: i32) -> (r: bool)
    ensures
        r == spec_year_in_range(year as int),
{
    year >= 1583 && year <= 8202
}

pub open spec fn spec_k(y: int) -> int {
    y / 100
}

pub open spec fn spec_q(y: int) -> int {
    y / 400
}

pub open spec fn spec_p(y: int) -> int {
    (13 + 8 * spec_k(y)) / 25
}

pub open spec fn spec_n(y: int) -> int {
    (4 + spec_k(y) - spec_q(y)) % 7
}

pub open spec fn spec_m(y: int) -> int {
    15 + spec_k(y) - spec_q(y) - spec_p(y)
}

/// Ranges of the Computus correction terms over the supported years.
pub proof fn lemma_computus_bounds(y: int)
    requires
        spec_year_in_range(y),
    ensures
        15 <= spec_k(y) <= 82,
        3 <= spec_q(y) <= 20,
        4 * spec_q(y) <= spec_k(y),
        5 <= spec_p(y) <= 26,
        0 <= spec_n(y) < 7,
        21 <= spec_m(y) <= 89,
{
    lemma_fundamental_div_mod(y, 100);
    lemma_mod_bound(y, 100);
    lemma_fundamental_div_mod(y, 400);
    lemma_mod_bound(y, 400);
    lemma_fundamental_div_mod(13 + 8 * spec_k(y), 25);
    lemma_mod_bound(13 + 8 * spec_k(y), 25);
    lemma_mod_bound(4 + spec_k(y) - spec_q(y), 7);
}

/// The two integer correction terms (m, n) of the Computus algorithm,
/// derived from century-related divisions of the year.
pub fn compute_m_and_n(year: i32) -> (r: Result<(i32, i32), HolidayError>)
    ensures
        r is Ok <==> spec_year_in_range(year as int),
        r matches Ok(p) ==> p.0 == spec_m(year as int) && p.1 == spec_n(year as int),
        r matches Err(e) ==> e == HolidayError::InvalidYear,
{
    if !year_in_range(year) {
        return Err(HolidayError::InvalidYear);
    }
    proof {
        lemma_computus_bounds(year as int);
    }
    let y: u32 = year as u32;
    let k: u32 = y / 100;
    let q: u32 = y / 400;
    let p: u32 = (13 + 8 * k) / 25;
    let n: u32 = (4 + k - q) % 7;
    let m: u32 = 15 + k - q - p;
    Ok((m as i32, n as i32))
}

pub open spec fn spec_a(y: int) -> int {
    y % 4
}

pub open spec fn spec_b(y: int) -> int {
    y % 7
}

pub open spec fn spec_c(y: int) -> int {
    y % 19
}

pub open spec fn spec_d(y: int) -> int {
    (19 * spec_c(y) + spec_m(y)) % 30
}

pub open spec fn spec_e(y: int) -> int {
    (2 * spec_a(y) + 4 * spec_b(y) + 6 * spec_d(y) + spec_n(y)) % 7
}

pub open spec fn spec_f(y: int) -> int {
    (spec_c(y) + 11 * spec_d(y) + 22 * spec_e(y)) / 451
}

/// The date of Easter Sunday of year `y`, per the Gauss/Computus rules:
/// day `22 + d + e - 7f` counted from March 1, folded into March or April.
pub open spec fn spec_easter(y: int) -> DateV {
    let f1 = 22 + spec_d(y) + spec_e(y) - 7 * spec_f(y);
    if f1 > 31 {
        DateV { y, m: 4, d: spec_d(y) + spec_e(y) - 7 * spec_f(y) - 9 }
    } else {
        DateV { y, m: 3, d: f1 }
    }
}

/// For every year in the supported range, Easter Sunday is a valid
/// Gregorian date in March or April of that same year.
pub proof fn lemma_easter_valid(y: int)
    requires
        spec_year_in_range(y),
    ensures
        spec_easter(y).valid(),
        spec_easter(y).y == y,
        spec_easter(y).m == 3 || spec_easter(y).m == 4,
{
    lemma_computus_bounds(y);
    lemma_mod_bound(y, 4);
    lemma_mod_bound(y, 7);
    lemma_mod_bound(y, 19);
    lemma_mod_bound(19 * spec_c(y) + spec_m(y), 30);
    lemma_mod_bound(2 * spec_a(y) + 4 * spec_b(y) + 6 * spec_d(y) + spec_n(y), 7);
    lemma_fundamental_div_mod(spec_c(y) + 11 * spec_d(y) + 22 * spec_e(y), 451);
    lemma_mod_bound(spec_c(y) + 11 * spec_d(y) + 22 * spec_e(y), 451);
}

/// The calendar date of Easter Sunday for the given year.
pub fn easter_sunday(year: i32) -> (r: Result<CalendarDate, HolidayError>)
    ensures
        r is Ok <==> spec_year_in_range(year as int),
        r matches Ok(d) ==> d@ == spec_easter(year as int) && d.wf() && d@.y == year as int && (
        d@.m == 3 || d@.m == 4),
        r matches Err(e) ==> e == HolidayError::InvalidYear,
{
    let (m, n) = match compute_m_and_n(year) {
        Ok(p) => p,
        Err(e) => {
            return Err(e);
        },
    };
    proof {
        lemma_computus_bounds(year as int);
        lemma_easter_valid(year as int);
    }
    let y: u32 = year as u32;
    let mu: u32 = m as u32;
    let nu: u32 = n as u32;
    let a: u32 = y % 4;
    let b: u32 = y % 7;
    let c: u32 = y % 19;
    let d: u32 = (19 * c + mu) % 30;
    let e: u32 = (2 * a + 4 * b + 6 * d + nu) % 7;
    let f: u32 = (c + 11 * d + 22 * e) / 451;
    let f1: u32 = 22 + d + e - 7 * f;
    if f1 > 31 {
        // Easter Sunday is in April
        let day: u32 = d + e - 7 * f - 9;
        Ok(CalendarDate::from_ymd(year, 4, day))
    } else {
        // Easter Sunday is in March
        Ok(CalendarDate::from_ymd(year, 3, f1))
    }
}

} // verus!

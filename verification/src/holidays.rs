use vstd::prelude::*;

verus! {

use crate::computus::{easter_sunday, spec_easter, spec_year_in_range};
use crate::date::{add_days, plus_days, CalendarDate, DateV};
use crate::error::HolidayError;

/// Identifiers of the holidays the calculator knows about. Only a subset is
/// populated by `compute_holidays`; the rest are an extension point and map
/// to no computed date.
#[derive(Clone, Copy, Debug, PartialEq, Eq, Hash, Structural)]
pub enum HolidayNames {
    NewYearsDay,
    Epiphany,
    WomensDay,
    GoodFriday,
    EasterMonday,
    LabourDay,
    AscensionDay,
    WhitMonday,
    CorpusChristi,
    AssumptionDay,
    WorldChildrensDay,
    GermanUnityDay,
    ReformationDay,
    AllSaintsDay,
    RepentanceAndPrayersDay,
    ChristmasDay,
    BoxingDay,
}

/// The holiday dates of one year: three fixed-date holidays and six
/// holidays at a fixed day offset from Easter Sunday.
#[derive(Clone, Copy, Debug, PartialEq, Eq, Structural)]
pub struct Holidays {
    pub new_years_day: CalendarDate,
    pub epiphany: CalendarDate,
    pub womens_day: CalendarDate,
    pub good_friday: CalendarDate,
    pub easter_sunday: CalendarDate,
    pub easter_monday: CalendarDate,
    pub mardi_gras: CalendarDate,  // Faschingsdienstag
    pub ash_wednesday: CalendarDate,
    pub ascension_day: CalendarDate,  // Christi Himmelfahrt
}

/// Every field of `h` holds exactly the date the holiday rules assign to it
/// for year `y`.
pub open spec fn holidays_correct(h: Holidays, y: int) -> bool {
    &&& h.new_years_day@ == (DateV { y, m: 1, d: 1 })
    &&& h.epiphany@ == (DateV { y, m: 1, d: 6 })
    &&& h.womens_day@ == (DateV { y, m: 3, d: 8 })
    &&& h.good_friday@ == plus_days(spec_easter(y), -2)
    &&& h.easter_sunday@ == spec_easter(y)
    &&& h.easter_monday@ == plus_days(spec_easter(y), 1)
    &&& h.mardi_gras@ == plus_days(spec_easter(y), -47)
    &&& h.ash_wednesday@ == plus_days(spec_easter(y), -46)
    &&& h.ascension_day@ == plus_days(spec_easter(y), 39)
}

impl Holidays {
    pub open spec fn wf(self) -> bool {
        &&& self.new_years_day.wf()
        &&& self.epiphany.wf()
        &&& self.womens_day.wf()
        &&& self.good_friday.wf()
        &&& self.easter_sunday.wf()
        &&& self.easter_monday.wf()
        &&& self.mardi_gras.wf()
        &&& self.ash_wednesday.wf()
        &&& self.ascension_day.wf()
    }

    /// The computed date of the named holiday, or `None` for the
    /// identifiers the calculator does not populate.
    pub open spec fn spec_get(self, name: HolidayNames) -> Option<CalendarDate> {
        match name {
            HolidayNames::NewYearsDay => Some(self.new_years_day),
            HolidayNames::Epiphany => Some(self.epiphany),
            HolidayNames::WomensDay => Some(self.womens_day),
            HolidayNames::GoodFriday => Some(self.good_friday),
            HolidayNames::EasterMonday => Some(self.easter_monday),
            HolidayNames::AscensionDay => Some(self.ascension_day),
            _ => None,
        }
    }

    pub fn get(&self, name: HolidayNames) -> (r: Option<CalendarDate>)
        ensures
            r == self.spec_get(name),
    {
        match name {
            HolidayNames::NewYearsDay => Some(self.new_years_day),
            HolidayNames::Epiphany => Some(self.epiphany),
            HolidayNames::WomensDay => Some(self.womens_day),
            HolidayNames::GoodFriday => Some(self.good_friday),
            HolidayNames::EasterMonday => Some(self.easter_monday),
            HolidayNames::AscensionDay => Some(self.ascension_day),
            _ => None,
        }
    }
}

/// The full holiday set of a year: either all nine dates, or an
/// `InvalidYear` error and no partial data.
pub fn compute_holidays(year: i32) -> (r: Result<Holidays, HolidayError>)
    ensures
        r is Ok <==> spec_year_in_range(year as int),
        r matches Ok(h) ==> holidays_correct(h, year as int) && h.wf(),
        r matches Err(e) ==> e == HolidayError::InvalidYear,
{
    let easter = match easter_sunday(year) {
        Ok(d) => d,
        Err(e) => {
            return Err(e);
        },
    };
    Ok(
        Holidays {
            new_years_day: CalendarDate::from_ymd(year, 1, 1),
            epiphany: CalendarDate::from_ymd(year, 1, 6),
            womens_day: CalendarDate::from_ymd(year, 3, 8),
            good_friday: add_days(easter, -2),
            easter_sunday: easter,
            easter_monday: add_days(easter, 1),
            mardi_gras: add_days(easter, -47),
            ash_wednesday: add_days(easter, -46),
            ascension_day: add_days(easter, 39),
        },
    )
}

pub proof fn lemma_date_view_injective(a: CalendarDate, b: CalendarDate)
    requires
        a@ == b@,
    ensures
        a == b,
{
}

/// The calculation is a pure function of the year: any two holiday sets
/// that meet the contract of `compute_holidays` for the same year are
/// identical.
pub proof fn lemma_compute_holidays_deterministic(y: int, h1: Holidays, h2: Holidays)
    requires
        holidays_correct(h1, y),
        holidays_correct(h2, y),
    ensures
        h1 == h2,
{
    lemma_date_view_injective(h1.new_years_day, h2.new_years_day);
    lemma_date_view_injective(h1.epiphany, h2.epiphany);
    lemma_date_view_injective(h1.womens_day, h2.womens_day);
    lemma_date_view_injective(h1.good_friday, h2.good_friday);
    lemma_date_view_injective(h1.easter_sunday, h2.easter_sunday);
    lemma_date_view_injective(h1.easter_monday, h2.easter_monday);
    lemma_date_view_injective(h1.mardi_gras, h2.mardi_gras);
    lemma_date_view_injective(h1.ash_wednesday, h2.ash_wednesday);
    lemma_date_view_injective(h1.ascension_day, h2.ascension_day);
}

} // verus!

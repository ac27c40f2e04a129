use holiday_calculator::{
    add_days, compute_holidays, compute_m_and_n, easter_sunday, year_in_range, CalendarDate,
    HolidayError, HolidayNames, MyError,
};

#[test]
fn test_compute_m_and_n() {
    assert_eq!((23, 3), compute_m_and_n(1777).unwrap());
    assert_eq!((24, 5), compute_m_and_n(2001).unwrap());
    assert_eq!((23, 3), compute_m_and_n(1700).unwrap());
    assert_eq!((23, 4), compute_m_and_n(1800).unwrap());
    assert_eq!((24, 5), compute_m_and_n(1900).unwrap());
}

#[test]
fn test_easter_sunday() {
    assert_eq!(CalendarDate::from_ymd(1583, 04, 10), easter_sunday(1583).unwrap());
    assert_eq!(CalendarDate::from_ymd(1723, 03, 28), easter_sunday(1723).unwrap());
    assert_eq!(CalendarDate::from_ymd(2017, 04, 16), easter_sunday(2017).unwrap());
    assert_eq!(CalendarDate::from_ymd(2020, 04, 12), easter_sunday(2020).unwrap());
    assert_eq!(CalendarDate::from_ymd(2021, 04, 04), easter_sunday(2021).unwrap());
    assert_eq!(CalendarDate::from_ymd(8202, 04, 18), easter_sunday(8202).unwrap());
}

#[test]
fn test_easter_sunday_all() {
    for year in 1583..8202 {
        easter_sunday(year).unwrap();
    }
}

#[test]
fn test_holidays() {
    let holidays = compute_holidays(2020).unwrap();
    assert_eq!(
        CalendarDate::from_ymd(2020, 04, 13),
        holidays.get(HolidayNames::EasterMonday).unwrap()
    );
}

#[test]
fn test_add_days() {
    let today = CalendarDate::from_ymd(2020, 04, 28);
    let expected = CalendarDate::from_ymd(2020, 05, 02);
    assert_eq!(expected, add_days(today, 4));
}

#[test]
fn test_easter_sunday_in_march_or_april() {
    for year in 1583..=8202 {
        let d = easter_sunday(year).unwrap();
        assert_eq!(d.year, year);
        assert!(d.month == 3 || d.month == 4);
        let month_len = if d.month == 3 { 31 } else { 30 };
        assert!(1 <= d.day && d.day <= month_len);
    }
}

#[test]
fn test_holidays_2020_reference_dates() {
    let holidays = compute_holidays(2020).unwrap();
    assert_eq!(CalendarDate::from_ymd(2020, 4, 12), holidays.easter_sunday);
    assert_eq!(CalendarDate::from_ymd(2020, 4, 13), holidays.easter_monday);
    assert_eq!(CalendarDate::from_ymd(2020, 4, 10), holidays.good_friday);
    assert_eq!(CalendarDate::from_ymd(2020, 5, 21), holidays.ascension_day);
    assert_eq!(CalendarDate::from_ymd(2020, 2, 25), holidays.mardi_gras);
    assert_eq!(CalendarDate::from_ymd(2020, 2, 26), holidays.ash_wednesday);
    assert_eq!(CalendarDate::from_ymd(2020, 1, 1), holidays.new_years_day);
    assert_eq!(CalendarDate::from_ymd(2020, 1, 6), holidays.epiphany);
    assert_eq!(CalendarDate::from_ymd(2020, 3, 8), holidays.womens_day);
}

#[test]
fn test_invalid_years_are_rejected() {
    assert_eq!(HolidayError::InvalidYear, compute_holidays(0).unwrap_err());
    assert_eq!(HolidayError::InvalidYear, compute_holidays(1582).unwrap_err());
    assert_eq!(HolidayError::InvalidYear, compute_holidays(8203).unwrap_err());
    assert_eq!(HolidayError::InvalidYear, easter_sunday(0).unwrap_err());
    assert_eq!(HolidayError::InvalidYear, easter_sunday(1582).unwrap_err());
    assert_eq!(HolidayError::InvalidYear, easter_sunday(8203).unwrap_err());
    assert_eq!(HolidayError::InvalidYear, compute_m_and_n(0).unwrap_err());
    assert_eq!(HolidayError::InvalidYear, compute_m_and_n(1582).unwrap_err());
    assert_eq!(HolidayError::InvalidYear, compute_m_and_n(8203).unwrap_err());
}

#[test]
fn test_year_in_range_bounds() {
    assert!(!year_in_range(1582));
    assert!(year_in_range(1583));
    assert!(year_in_range(8202));
    assert!(!year_in_range(8203));
    assert!(!year_in_range(0));
}

#[test]
fn test_repeated_calls_are_identical() {
    let first = compute_holidays(2021).unwrap();
    let second = compute_holidays(2021).unwrap();
    assert_eq!(first, second);
    assert_eq!(easter_sunday(2021).unwrap(), easter_sunday(2021).unwrap());
}

#[test]
fn test_unpopulated_holidays_have_no_date() {
    let holidays = compute_holidays(2020).unwrap();
    assert!(holidays.get(HolidayNames::ChristmasDay).is_none());
    assert!(holidays.get(HolidayNames::LabourDay).is_none());
    assert!(holidays.get(HolidayNames::WhitMonday).is_none());
    assert!(holidays.get(HolidayNames::BoxingDay).is_none());
}

#[test]
fn test_add_days_leap_year_boundaries() {
    let leap = CalendarDate::from_ymd(2020, 3, 1);
    assert_eq!(CalendarDate::from_ymd(2020, 2, 29), add_days(leap, -1));
    let common = CalendarDate::from_ymd(2021, 3, 1);
    assert_eq!(CalendarDate::from_ymd(2021, 2, 28), add_days(common, -1));
    let century = CalendarDate::from_ymd(1900, 3, 1);
    assert_eq!(CalendarDate::from_ymd(1900, 2, 28), add_days(century, -1));
    let quadricentennial = CalendarDate::from_ymd(2000, 3, 1);
    assert_eq!(CalendarDate::from_ymd(2000, 2, 29), add_days(quadricentennial, -1));
}

#[test]
fn test_add_days_year_boundaries() {
    let late = CalendarDate::from_ymd(2020, 12, 30);
    assert_eq!(CalendarDate::from_ymd(2021, 1, 3), add_days(late, 4));
    let early = CalendarDate::from_ymd(2020, 1, 1);
    assert_eq!(CalendarDate::from_ymd(2019, 12, 31), add_days(early, -1));
    assert_eq!(late, add_days(add_days(late, 4), -4));
}

#[test]
fn test_my_error_keeps_message() {
    let e = MyError::new("Error deserializing the request.");
    assert_eq!("Error deserializing the request.", e.errormessage);
}

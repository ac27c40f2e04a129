//! Holiday calculator: computes Easter Sunday for a given year with the
//! Gauss/Computus algorithm and derives a fixed set of holidays from it,
//! some on fixed calendar dates and some at a fixed day offset from Easter.

pub mod computus;
pub mod date;
pub mod error;
pub mod holidays;

pub use computus::{compute_m_and_n, easter_sunday, year_in_range};
pub use date::{add_days, CalendarDate};
pub use error::{HolidayError, MyError};
pub use holidays::{compute_holidays, HolidayNames, Holidays};

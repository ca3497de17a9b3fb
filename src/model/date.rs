//! Calendar dates, as the measurement store keys periods.
use chrono::Datelike;
use vstd::prelude::*;

verus! {

/// A day of the proleptic Gregorian calendar.
#[derive(Debug, Clone, Copy, PartialEq, Eq, Hash)]
pub struct Date {
    pub year: i32,
    pub month: u32,
    pub day: u32,
}

/// The years in which the calendar can place a date.
pub open spec fn year_in_range(year: int) -> bool {
    -262143 <= year <= 262142
}

/// Relies on `chrono::NaiveDate::from_ymd_opt`: `None` for a day that does not
/// exist or a year outside `NaiveDate`'s range (`MIN_YEAR` to `MAX_YEAR`);
/// January 1 and December 31 exist in every year of that range.
#[verifier::external_body]
fn calendar_date(year: i32, month: u32, day: u32) -> (r: Option<Date>)
    ensures
        r matches Some(d) ==> d == (Date { year, month, day }),
        ((month == 1 && day == 1) || (month == 12 && day == 31)) ==> (r is Some <==> year_in_range(
            year as int,
        )),
{
    chrono::NaiveDate::from_ymd_opt(year, month, day).map(
        |d| Date { year: d.year(), month: d.month(), day: d.day() },
    )
}

/// The first day of `year`.
pub open spec fn first_day(year: i32) -> Date {
    Date { year, month: 1, day: 1 }
}

/// The last day of `year`.
pub open spec fn last_day(year: i32) -> Date {
    Date { year, month: 12, day: 31 }
}

/// January 1 of `year`, where the calendar has that year.
pub fn year_start(year: i32) -> (r: Option<Date>)
    ensures
        r == if year_in_range(year as int) {
            Some(first_day(year))
        } else {
            None
        },
{
    calendar_date(year, 1, 1)
}

/// December 31 of `year`, where the calendar has that year.
pub fn year_end(year: i32) -> (r: Option<Date>)
    ensures
        r == if year_in_range(year as int) {
            Some(last_day(year))
        } else {
            None
        },
{
    calendar_date(year, 12, 31)
}

} // verus!

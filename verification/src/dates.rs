use vstd::prelude::*;

verus! {

/// True when `y` is a leap year of the Gregorian calendar.
pub open spec fn is_leap_year(y: int) -> bool {
    y % 4 == 0 && (y % 100 != 0 || y % 400 == 0)
}

/// How many days the given month of the given year has, by the Gregorian rule.
pub open spec fn month_length(y: int, m: int) -> int {
    if m == 2 {
        if is_leap_year(y) {
            29
        } else {
            28
        }
    } else if m == 4 || m == 6 || m == 9 || m == 11 {
        30
    } else {
        31
    }
}

/// Days in the months of year `y` that come before month `m`.
pub open spec fn days_before_month(y: int, m: int) -> int
    decreases m,
{
    if m <= 1 {
        0
    } else {
        days_before_month(y, m - 1) + month_length(y, m - 1)
    }
}

/// Days in the years 1 through `y - 1` of the proleptic Gregorian calendar.
pub open spec fn days_before_year(y: int) -> int {
    365 * (y - 1) + (y - 1) / 4 - (y - 1) / 100 + (y - 1) / 400
}

/// The weekday of the first day of the month, counted in days after Sunday
/// (Sunday is 0, Saturday is 6). The first day of year 1 was a Monday.
pub open spec fn first_weekday_offset(y: int, m: int) -> int {
    (1 + days_before_year(y) + days_before_month(y, m)) % 7
}

/// A calendar date. `wf` says the triple denotes a real day.
#[derive(Clone, Copy, Debug, PartialEq, Eq, Structural)]
pub struct CalendarDate {
    pub year: i32,
    pub month: u32,
    pub day: u32,
}

impl CalendarDate {
    /// The date denotes a real day of the Gregorian calendar, in a year the
    /// renderer can handle.
    pub open spec fn wf(self) -> bool {
        &&& 0 <= self.year <= 9999
        &&& 1 <= self.month <= 12
        &&& 1 <= self.day <= month_length(self.year as int, self.month as int)
    }
}

/// Whether `y` is a leap year, by the Gregorian rule.
pub fn leap_year(y: i32) -> (r: bool)
    requires
        0 <= y <= 9999,
    ensures
        r == is_leap_year(y as int),
{
    y % 4 == 0 && (y % 100 != 0 || y % 400 == 0)
}

/// The number of days in the given month.
pub fn days_in_month(year: i32, month: u32) -> (r: u32)
    requires
        0 <= year <= 9999,
        1 <= month <= 12,
    ensures
        r as int == month_length(year as int, month as int),
        28 <= r <= 31,
{
    match month {
        2 => if leap_year(year) {
            29
        } else {
            28
        },
        4 | 6 | 9 | 11 => 30,
        _ => 31,
    }
}

/// The last valid day of the given month, as a full date.
pub fn last_day_in_month(year: i32, month: u32) -> (r: CalendarDate)
    requires
        1 <= year <= 9999,
        1 <= month <= 12,
    ensures
        r.year == year,
        r.month == month,
        r.day as int == month_length(year as int, month as int),
        r.wf(),
{
    CalendarDate { year, month, day: days_in_month(year, month) }
}

/// February has 29 days exactly in the leap years: those divisible by 4,
/// except the centuries that are not divisible by 400. Otherwise it has 28.
pub proof fn lemma_february_leap(y: int)
    requires
        1 <= y <= 9999,
    ensures
        month_length(y, 2) == 29 <==> (y % 4 == 0 && (y % 100 != 0 || y % 400 == 0)),
        !is_leap_year(y) ==> month_length(y, 2) == 28,
{
}

/// The count of leading blank cells in the month grid: the weekday of the
/// first of the month, in days after Sunday.
pub fn first_weekday(year: i32, month: u32) -> (r: u32)
    requires
        1 <= year <= 9999,
        1 <= month <= 12,
    ensures
        r as int == first_weekday_offset(year as int, month as int),
        r < 7,
{
    let prior_years: u32 = (year - 1) as u32;
    let before_year: u32 = 365 * prior_years + prior_years / 4 - prior_years / 100 + prior_years
        / 400;
    let mut before_month: u32 = 0;
    let mut mo: u32 = 1;
    while mo < month
        invariant
            1 <= mo <= month <= 12,
            0 <= year <= 9999,
            before_month as int == days_before_month(year as int, mo as int),
            before_month <= 31 * (mo - 1),
        decreases month - mo,
    {
        before_month = before_month + days_in_month(year, mo);
        mo = mo + 1;
    }
    (1 + before_year + before_month) % 7
}

} // verus!

//! Calendar dates as day numbers, and inclusive date intervals.

use chrono::Datelike;
use chrono::NaiveDate;
use vstd::prelude::*;

verus! {

/// Day number of January 1, 1970, the date that stands in where no date is known.
pub const EPOCH_DAY: i32 = 719_163;

/// A calendar date without a time of day, held as the number of its day in the
/// proleptic Gregorian calendar, where January 1 of year 1 is day 1.
#[derive(Clone, Copy, Debug, PartialEq, Eq, Structural, PartialOrd, Ord, Hash)]
pub struct Date {
    pub day: i32,
}

/// The day number of the calendar date `year`-`month`-`day`, or `None` where
/// no such date exists or chrono cannot represent it.
pub uninterp spec fn day_number(year: int, month: int, day: int) -> Option<int>;

/// Asks chrono for the day number of a calendar date: `NaiveDate::from_ymd_opt`
/// builds the date and `Datelike::num_days_from_ce` counts its days. Trusted:
/// the outcome is a function of the three numbers alone, named `day_number`.
#[verifier::external_body]
fn day_number_of(year: i32, month: u32, day: u32) -> (r: Option<i32>)
    ensures
        r is Some <==> day_number(year as int, month as int, day as int) is Some,
        r matches Some(n) ==> day_number(year as int, month as int, day as int) == Some(n as int),
{
    match NaiveDate::from_ymd_opt(year, month, day) {
        Some(date) => Some(date.num_days_from_ce()),
        None => None,
    }
}

impl View for Date {
    type V = int;

    open spec fn view(&self) -> int {
        self.day as int
    }
}

impl Date {
    /// The date with the given day number.
    pub fn from_day(day: i32) -> (r: Date)
        ensures
            r.day == day,
    {
        Date { day }
    }

    /// The date `year`-`month`-`day`, where the calendar has it.
    pub fn from_ymd_opt(year: i32, month: u32, day: u32) -> (r: Option<Date>)
        ensures
            match day_number(year as int, month as int, day as int) {
                Some(n) => r matches Some(d) && d@ == n,
                None => r is None,
            },
    {
        match day_number_of(year, month, day) {
            Some(n) => Some(Date { day: n }),
            None => None,
        }
    }

    /// January 1, 1970.
    pub fn epoch() -> (r: Date)
        ensures
            r.day == EPOCH_DAY,
    {
        Date { day: EPOCH_DAY }
    }

    /// Whole days from `earlier` to `self`; negative where `self` comes first.
    pub fn days_since(&self, earlier: &Date) -> (r: i64)
        ensures
            r == self@ - earlier@,
    {
        let a: i64 = self.day as i64;
        let b: i64 = earlier.day as i64;
        a - b
    }
}

/// A range of dates, both ends included. An interval whose first day comes
/// after its last holds no date.
#[derive(Clone, Copy, Debug, PartialEq, Eq, Structural)]
pub struct Interval {
    pub first: Date,
    pub last: Date,
}

impl Interval {
    /// Whether `date` lies in the interval.
    pub open spec fn spec_contains(&self, date: Date) -> bool {
        self.first@ <= date@ <= self.last@
    }

    /// Whether `date` lies in the interval.
    #[verifier::when_used_as_spec(spec_contains)]
    pub fn contains(&self, date: Date) -> (r: bool)
        ensures
            r == self.spec_contains(date),
    {
        self.first.day <= date.day && date.day <= self.last.day
    }
}

} // verus!

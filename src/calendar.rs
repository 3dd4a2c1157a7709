//! Calendar days and the resolution of the target day of a run.
//!
//! A day is held as its number in the proleptic Gregorian calendar, with
//! January 1 of year 1 as day 1 and December 31 of year 1 BCE as day 0. The
//! calendar arithmetic itself is done by chrono.

use chrono::Datelike;
use vstd::prelude::*;

verus! {

/// The number of the earliest day chrono can represent (January 1, 262144 BCE).
pub const FIRST_DAY_NUMBER: i32 = -95746129;

/// The number of the latest day chrono can represent (December 31, 262142 CE).
pub const LAST_DAY_NUMBER: i32 = 95745399;

/// The date pattern that names a day as in "Wed Apr 12 2023".
pub const WEEKDAY_MONTH_DAY_YEAR: &'static str = "%a %b %d %Y";

/// The date pattern that names a day as in "4/9/2023".
pub const SHORT_MONTH_DAY_YEAR: &'static str = "%-m/%-d/%Y";

/// The date pattern that names a day as in "04/09/2023".
pub const PADDED_MONTH_DAY_YEAR: &'static str = "%m/%d/%Y";

/// Whether `days` is the number of a day chrono can represent.
pub open spec fn in_calendar(days: int) -> bool {
    FIRST_DAY_NUMBER <= days <= LAST_DAY_NUMBER
}

/// Whether `pattern` is one of the date patterns this library renders.
pub open spec fn is_date_pattern(pattern: Seq<char>) -> bool {
    ||| pattern == WEEKDAY_MONTH_DAY_YEAR@
    ||| pattern == SHORT_MONTH_DAY_YEAR@
    ||| pattern == PADDED_MONTH_DAY_YEAR@
}

/// The day number of a year, month and day of the month, if that date exists
/// and chrono can represent it.
pub uninterp spec fn ymd_day_number(year: int, month: int, day: int) -> Option<int>;

/// The month, from 1 to 12, of the day with number `days`.
pub uninterp spec fn month_of_day(days: int) -> int;

/// The text chrono renders for the day with number `days` under `pattern`.
pub uninterp spec fn formatted_day(days: int, pattern: Seq<char>) -> Seq<char>;

/// One calendar day.
#[derive(Debug, Clone, Copy, PartialEq, Eq, Structural)]
pub struct CalendarDate {
    days: i32,
}

impl View for CalendarDate {
    type V = int;

    /// The day's number.
    closed spec fn view(&self) -> int {
        self.days as int
    }
}

impl CalendarDate {
    #[verifier::type_invariant]
    spec fn representable(self) -> bool {
        in_calendar(self.days as int)
    }

    /// Relies on chrono's `NaiveDate::from_num_days_from_ce_opt`: the day
    /// with the given number, or `None` outside chrono's range.
    #[verifier::external_body]
    pub fn from_day_number(days: i32) -> (r: Option<CalendarDate>)
        ensures
            r is Some <==> in_calendar(days as int),
            r matches Some(d) ==> d@ == days,
    {
        chrono::NaiveDate::from_num_days_from_ce_opt(days).map(|_| CalendarDate { days })
    }

    /// Relies on chrono's `NaiveDate::from_ymd_opt`: the given date, or
    /// `None` if it does not exist or lies outside chrono's range.
    #[verifier::external_body]
    pub fn from_ymd(year: i32, month: u32, day: u32) -> (r: Option<CalendarDate>)
        ensures
            match r {
                Some(d) => ymd_day_number(year as int, month as int, day as int) == Some(d@),
                None => ymd_day_number(year as int, month as int, day as int) is None,
            },
            r is Some ==> 1 <= month <= 12 && 1 <= day <= 31,
    {
        chrono::NaiveDate::from_ymd_opt(year, month, day).map(
            |d| CalendarDate { days: d.num_days_from_ce() },
        )
    }

    /// Two dates are the same date exactly when they have the same number.
    pub proof fn lemma_same_day(a: CalendarDate, b: CalendarDate)
        ensures
            a@ == b@ <==> a == b,
    {
    }

    /// The day's number.
    pub fn day_number(&self) -> (r: i32)
        ensures
            r == self@,
            in_calendar(r as int),
    {
        proof {
            use_type_invariant(self);
        }
        self.days
    }

    /// Relies on chrono's `NaiveDate::checked_add_days`: the day `n` days
    /// later, or `None` outside chrono's range.
    #[verifier::external_body]
    pub fn add_days(&self, n: u32) -> (r: Option<CalendarDate>)
        ensures
            r is Some <==> in_calendar(self@ + n),
            r matches Some(d) ==> d@ == self@ + n,
    {
        let date = chrono::NaiveDate::from_num_days_from_ce_opt(self.days).unwrap();
        date.checked_add_days(chrono::Days::new(n as u64)).map(
            |d| CalendarDate { days: d.num_days_from_ce() },
        )
    }

    /// Relies on chrono's `NaiveDate::checked_sub_days`: the day `n` days
    /// earlier, or `None` outside chrono's range.
    #[verifier::external_body]
    pub fn sub_days(&self, n: u32) -> (r: Option<CalendarDate>)
        ensures
            r is Some <==> in_calendar(self@ - n),
            r matches Some(d) ==> d@ == self@ - n,
    {
        let date = chrono::NaiveDate::from_num_days_from_ce_opt(self.days).unwrap();
        date.checked_sub_days(chrono::Days::new(n as u64)).map(
            |d| CalendarDate { days: d.num_days_from_ce() },
        )
    }

    /// Relies on chrono's `Weekday::num_days_from_sunday` of the day's
    /// weekday: 0 for Sunday up to 6 for Saturday. Day 1 was a Monday.
    #[verifier::external_body]
    pub fn weekday_from_sunday(&self) -> (r: u32)
        ensures
            r == self@ % 7,
    {
        chrono::NaiveDate::from_num_days_from_ce_opt(self.days).unwrap().weekday().num_days_from_sunday()
    }

    /// Relies on chrono's `Datelike::month`: the day's month, from 1 to 12.
    #[verifier::external_body]
    pub fn month(&self) -> (r: u32)
        ensures
            r == month_of_day(self@),
            1 <= r <= 12,
    {
        chrono::NaiveDate::from_num_days_from_ce_opt(self.days).unwrap().month()
    }

    /// Relies on chrono's `NaiveDate::format`: the day rendered under one of
    /// the patterns this library uses.
    #[verifier::external_body]
    pub fn format(&self, pattern: &str) -> (r: String)
        requires
            is_date_pattern(pattern@),
        ensures
            r@ == formatted_day(self@, pattern@),
    {
        chrono::NaiveDate::from_num_days_from_ce_opt(self.days).unwrap().format(pattern).to_string()
    }
}

/// The target day of a run, relative to the day the run starts.
#[derive(Debug, Clone, Copy, PartialEq, Eq, Structural)]
pub enum RelativeDay {
    Yesterday,
    Today,
    Tomorrow,
}

/// The shift in days from the starting day to the target day.
pub open spec fn day_offset(day: RelativeDay) -> int {
    match day {
        RelativeDay::Yesterday => -1,
        RelativeDay::Today => 0,
        RelativeDay::Tomorrow => 1,
    }
}

/// The target day cannot be represented in the calendar.
#[derive(Debug, Clone, Copy, PartialEq, Eq, Structural)]
pub struct DayResolutionFailure;

impl RelativeDay {
    /// The concrete day this relative day names when the run starts on
    /// `today`; an error only when that day falls outside the calendar.
    pub fn get_date(&self, today: CalendarDate) -> (r: Result<CalendarDate, DayResolutionFailure>)
        ensures
            in_calendar(today@),
            r is Ok <==> in_calendar(today@ + day_offset(*self)),
            r matches Ok(d) ==> d@ == today@ + day_offset(*self),
    {
        proof {
            use_type_invariant(&today);
        }
        let shifted = match self {
            RelativeDay::Yesterday => today.sub_days(1),
            RelativeDay::Today => Some(today),
            RelativeDay::Tomorrow => today.add_days(1),
        };
        match shifted {
            Some(d) => Ok(d),
            None => Err(DayResolutionFailure),
        }
    }
}

} // verus!

//! Where a source's calendar page must be taken to show the target day.
//!
//! Some sources show one week at a time, starting on Sunday or on Monday,
//! and open on the week of the current day; others show a month. These
//! functions decide, from the day the run starts and the target day, which
//! way to move and what text marks the target day on the page.

use vstd::prelude::*;

use crate::calendar::{
    CalendarDate, RelativeDay, SHORT_MONTH_DAY_YEAR, WEEKDAY_MONTH_DAY_YEAR, formatted_day,
    in_calendar, month_of_day,
};

verus! {

/// A move between the weeks of a weekly calendar.
#[derive(Debug, Clone, Copy, PartialEq, Eq, Structural)]
pub enum WeekShift {
    Previous,
    Stay,
    Next,
}

/// The number of weeks a shift moves by.
pub open spec fn shift_weeks(s: WeekShift) -> int {
    match s {
        WeekShift::Previous => -1,
        WeekShift::Stay => 0,
        WeekShift::Next => 1,
    }
}

/// The index of the Sunday-to-Saturday week that holds day `days`
/// (day numbers divisible by seven are Sundays).
pub open spec fn sunday_week(days: int) -> int {
    days / 7
}

/// The index of the Monday-to-Sunday week that holds day `days`.
pub open spec fn monday_week(days: int) -> int {
    (days - 1) / 7
}

/// Whether two days are at most one day apart.
pub open spec fn adjacent(a: int, b: int) -> bool {
    -1 <= a - b <= 1
}

/// The first day, a Sunday, of the Sunday-to-Saturday week holding `days`.
pub open spec fn sunday_week_start(days: int) -> int {
    days - days % 7
}

/// The shift that takes a Sunday-to-Saturday calendar from the week of
/// `today` to the week of `target`, for a target at most a day away.
pub fn sunday_week_shift(today: &CalendarDate, target: &CalendarDate) -> (r: WeekShift)
    ensures
        r == (if today@ % 7 == 0 && target@ % 7 == 6 {
            WeekShift::Previous
        } else if today@ % 7 == 6 && target@ % 7 == 0 {
            WeekShift::Next
        } else {
            WeekShift::Stay
        }),
        adjacent(target@, today@) ==> shift_weeks(r) == sunday_week(target@) - sunday_week(today@),
{
    let now = today.weekday_from_sunday();
    let then = target.weekday_from_sunday();
    if now == 0 && then == 6 {
        WeekShift::Previous
    } else if now == 6 && then == 0 {
        WeekShift::Next
    } else {
        WeekShift::Stay
    }
}

/// The shift that takes a Monday-to-Sunday calendar from the week of
/// `today` to the week of `target`, for a target at most a day away.
pub fn monday_week_shift(today: &CalendarDate, target: &CalendarDate) -> (r: WeekShift)
    ensures
        r == (if today@ % 7 == 1 && target@ % 7 == 0 {
            WeekShift::Previous
        } else if today@ % 7 == 0 && target@ % 7 == 1 {
            WeekShift::Next
        } else {
            WeekShift::Stay
        }),
        adjacent(target@, today@) ==> shift_weeks(r) == monday_week(target@) - monday_week(today@),
{
    let now = today.weekday_from_sunday();
    let then = target.weekday_from_sunday();
    if now == 1 && then == 0 {
        WeekShift::Previous
    } else if now == 0 && then == 1 {
        WeekShift::Next
    } else {
        WeekShift::Stay
    }
}

/// Whether a month calendar that opens on the month of `today` must first
/// go back one month to show `target`: only when the target is yesterday
/// and lies in another month.
pub fn needs_previous_month(day: RelativeDay, today: &CalendarDate, target: &CalendarDate) -> (r: bool)
    ensures
        r == (day == RelativeDay::Yesterday && month_of_day(today@) != month_of_day(target@)),
{
    today.month() != target.month() && day == RelativeDay::Yesterday
}

/// The label a day picker gives the target day, as in "Wed Apr 12 2023".
pub fn picker_label(target: &CalendarDate) -> (r: String)
    ensures
        r@ == formatted_day(target@, WEEKDAY_MONTH_DAY_YEAR@),
{
    target.format(WEEKDAY_MONTH_DAY_YEAR)
}

/// The title of the Sunday-to-Saturday week holding `date`, as in
/// "Events For 4/16/2023 - 4/22/2023"; `None` when that week reaches past
/// the calendar.
pub fn week_range_header(date: &CalendarDate) -> (r: Option<String>)
    ensures
        r is Some <==> in_calendar(sunday_week_start(date@)) && in_calendar(
            sunday_week_start(date@) + 6,
        ),
        r matches Some(h) ==> h@ == "Events For "@ + formatted_day(
            sunday_week_start(date@),
            SHORT_MONTH_DAY_YEAR@,
        ) + " - "@ + formatted_day(sunday_week_start(date@) + 6, SHORT_MONTH_DAY_YEAR@),
{
    let weekday = date.weekday_from_sunday();
    let start = match date.sub_days(weekday) {
        Some(d) => d,
        None => return None,
    };
    let end = match date.add_days(6 - weekday) {
        Some(d) => d,
        None => return None,
    };
    let first = start.format(SHORT_MONTH_DAY_YEAR);
    let last = end.format(SHORT_MONTH_DAY_YEAR);
    Some(events_title(first.as_str(), last.as_str()))
}

/// The title of a week whose first and last days read `first` and `last`.
pub fn events_title(first: &str, last: &str) -> (r: String)
    ensures
        r@ == "Events For "@ + first@ + " - "@ + last@,
{
    let mut title = String::from_str("Events For ");
    title.append(first);
    title.append(" - ");
    title.append(last);
    title
}

} // verus!

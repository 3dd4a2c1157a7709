use earnings_calendar::calendar::{
    CalendarDate, DayResolutionFailure, RelativeDay, FIRST_DAY_NUMBER, LAST_DAY_NUMBER,
    SHORT_MONTH_DAY_YEAR,
};
use earnings_calendar::navigation::{
    events_title, monday_week_shift, needs_previous_month, picker_label, sunday_week_shift, week_range_header,
    WeekShift,
};

fn ymd(y: i32, m: u32, d: u32) -> CalendarDate {
    CalendarDate::from_ymd(y, m, d).unwrap()
}

fn header(y: i32, m: u32, d: u32) -> String {
    week_range_header(&ymd(y, m, d)).unwrap()
}

#[test]
fn benzinga_parser_date_weekday_month_day_year() {
    assert_eq!(picker_label(&ymd(2023, 4, 12)), "Wed Apr 12 2023");
    assert_eq!(picker_label(&ymd(2023, 4, 14)), "Fri Apr 14 2023");
}

#[test]
fn zacks_parser_week_range_dates() {
    assert_eq!(header(2023, 4, 17), "Events For 4/16/2023 - 4/22/2023");
    assert_eq!(header(2023, 4, 16), "Events For 4/16/2023 - 4/22/2023");
    assert_eq!(header(2023, 4, 15), "Events For 4/9/2023 - 4/15/2023");
    assert_eq!(header(2023, 4, 6), "Events For 4/2/2023 - 4/8/2023");
    assert_eq!(header(2023, 4, 24), "Events For 4/23/2023 - 4/29/2023");
    assert_eq!(header(2023, 4, 30), "Events For 4/30/2023 - 5/6/2023");
}

#[test]
fn zacks_week_range_dates() {
    assert_eq!(header(2023, 4, 17), "Events For 4/16/2023 - 4/22/2023");
    assert_eq!(header(2023, 4, 16), "Events For 4/16/2023 - 4/22/2023");
    assert_eq!(header(2023, 4, 15), "Events For 4/9/2023 - 4/15/2023");
    assert_eq!(header(2023, 4, 6), "Events For 4/2/2023 - 4/8/2023");
    assert_eq!(header(2023, 4, 24), "Events For 4/23/2023 - 4/29/2023");
    assert_eq!(header(2023, 4, 30), "Events For 4/30/2023 - 5/6/2023");
}

#[test]
fn day_numbers() {
    assert_eq!(ymd(1, 1, 1).day_number(), 1);
    assert_eq!(ymd(0, 12, 31).day_number(), 0);
    assert_eq!(ymd(1999, 9, 3).day_number(), 730_000);
    assert!(CalendarDate::from_ymd(2023, 2, 29).is_none());
    assert!(CalendarDate::from_ymd(2023, 13, 1).is_none());
    assert!(CalendarDate::from_ymd(2023, 0, 1).is_none());
    assert!(CalendarDate::from_ymd(2023, 1, 0).is_none());
    assert!(CalendarDate::from_ymd(2023, 1, 32).is_none());
    assert_eq!(CalendarDate::from_day_number(730_000), Some(ymd(1999, 9, 3)));
}

#[test]
fn calendar_range_ends() {
    assert!(CalendarDate::from_day_number(FIRST_DAY_NUMBER).is_some());
    assert!(CalendarDate::from_day_number(LAST_DAY_NUMBER).is_some());
    assert!(CalendarDate::from_day_number(FIRST_DAY_NUMBER - 1).is_none());
    assert!(CalendarDate::from_day_number(LAST_DAY_NUMBER + 1).is_none());
    let last = CalendarDate::from_day_number(LAST_DAY_NUMBER).unwrap();
    assert!(last.add_days(1).is_none());
    assert_eq!(RelativeDay::Tomorrow.get_date(last), Err(DayResolutionFailure));
    assert_eq!(RelativeDay::Today.get_date(last), Ok(last));
    let first = CalendarDate::from_day_number(FIRST_DAY_NUMBER).unwrap();
    assert!(first.sub_days(1).is_none());
    assert_eq!(RelativeDay::Yesterday.get_date(first), Err(DayResolutionFailure));
}

#[test]
fn relative_days_cross_month_and_year() {
    let new_year = ymd(2024, 1, 1);
    assert_eq!(RelativeDay::Yesterday.get_date(new_year), Ok(ymd(2023, 12, 31)));
    assert_eq!(RelativeDay::Today.get_date(new_year), Ok(new_year));
    assert_eq!(RelativeDay::Tomorrow.get_date(ymd(2024, 2, 28)), Ok(ymd(2024, 2, 29)));
    assert_eq!(RelativeDay::Tomorrow.get_date(ymd(2023, 2, 28)), Ok(ymd(2023, 3, 1)));
}

#[test]
fn weekdays_and_months() {
    assert_eq!(ymd(2023, 4, 16).weekday_from_sunday(), 0);
    assert_eq!(ymd(2023, 4, 17).weekday_from_sunday(), 1);
    assert_eq!(ymd(2023, 4, 15).weekday_from_sunday(), 6);
    assert_eq!(ymd(2023, 4, 15).month(), 4);
    assert_eq!(ymd(2023, 4, 15).format(SHORT_MONTH_DAY_YEAR), "4/15/2023");
}

#[test]
fn sunday_weeks() {
    let sat = ymd(2023, 4, 15);
    let sun = ymd(2023, 4, 16);
    let mon = ymd(2023, 4, 17);
    assert_eq!(sunday_week_shift(&sun, &sat), WeekShift::Previous);
    assert_eq!(sunday_week_shift(&sat, &sun), WeekShift::Next);
    assert_eq!(sunday_week_shift(&sun, &mon), WeekShift::Stay);
    assert_eq!(sunday_week_shift(&mon, &sun), WeekShift::Stay);
}

#[test]
fn monday_weeks() {
    let sat = ymd(2023, 4, 15);
    let sun = ymd(2023, 4, 16);
    let mon = ymd(2023, 4, 17);
    assert_eq!(monday_week_shift(&mon, &sun), WeekShift::Previous);
    assert_eq!(monday_week_shift(&sun, &mon), WeekShift::Next);
    assert_eq!(monday_week_shift(&sun, &sat), WeekShift::Stay);
    assert_eq!(monday_week_shift(&sat, &sun), WeekShift::Stay);
}

#[test]
fn previous_month_only_for_yesterday() {
    let first = ymd(2023, 5, 1);
    let last = ymd(2023, 4, 30);
    assert!(needs_previous_month(RelativeDay::Yesterday, &first, &last));
    assert!(!needs_previous_month(RelativeDay::Tomorrow, &last, &first));
    assert!(!needs_previous_month(RelativeDay::Yesterday, &ymd(2023, 5, 2), &first));
}

#[test]
fn week_title_from_labels() {
    assert_eq!(events_title("4/16/2023", "4/22/2023"), "Events For 4/16/2023 - 4/22/2023");
}

#[test]
fn week_header_at_calendar_end() {
    let last = CalendarDate::from_day_number(LAST_DAY_NUMBER).unwrap();
    let first = CalendarDate::from_day_number(FIRST_DAY_NUMBER).unwrap();
    // The week of the last day runs past the calendar unless it ends on it.
    let ends_week = last.weekday_from_sunday() == 6;
    assert_eq!(week_range_header(&last).is_some(), ends_week);
    let starts_week = first.weekday_from_sunday() == 0;
    assert_eq!(week_range_header(&first).is_some(), starts_week);
}

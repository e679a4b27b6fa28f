use chrono::Datelike;
use ten10::calendar::{Date, MAX_YEAR, MIN_YEAR};

fn day(year: i32, month: u32, day: u32) -> Date {
    Date::new(year, month, day).expect("a day of the calendar")
}

#[test]
fn the_calendar_knows_its_days() {
    assert!(Date::new(2024, 2, 29).is_some());
    assert!(Date::new(2023, 2, 29).is_none());
    assert!(Date::new(1900, 2, 29).is_none());
    assert!(Date::new(2000, 2, 29).is_some());
    assert!(Date::new(2024, 4, 31).is_none());
    assert!(Date::new(2024, 0, 10).is_none());
    assert!(Date::new(2024, 13, 10).is_none());
    assert!(Date::new(2024, 1, 0).is_none());
    assert!(Date::new(-4, 2, 29).is_some());
}

#[test]
fn the_calendar_ends_where_the_date_crate_ends() {
    assert!(Date::new(MAX_YEAR, 12, 31).is_some());
    assert!(Date::new(MAX_YEAR + 1, 1, 1).is_none());
    assert!(Date::new(MIN_YEAR, 1, 1).is_some());
    assert!(Date::new(MIN_YEAR - 1, 12, 31).is_none());
    assert_eq!(chrono::NaiveDate::MAX, chrono::NaiveDate::from_ymd_opt(MAX_YEAR, 12, 31).unwrap());
    assert_eq!(chrono::NaiveDate::MIN, chrono::NaiveDate::from_ymd_opt(MIN_YEAR, 1, 1).unwrap());
}

#[test]
fn a_date_gives_back_its_numbers() {
    let d = day(2024, 7, 9);
    assert_eq!((d.year(), d.month(), d.day()), (2024, 7, 9));
}

#[test]
fn days_are_ordered_by_year_then_month_then_day() {
    assert!(day(2023, 12, 31).before(&day(2024, 1, 1)));
    assert!(day(2024, 1, 31).before(&day(2024, 2, 1)));
    assert!(day(2024, 2, 1).before(&day(2024, 2, 2)));
    assert!(!day(2024, 2, 2).before(&day(2024, 2, 2)));
    assert!(day(2024, 2, 2).on_or_before(&day(2024, 2, 2)));
    assert!(!day(2024, 2, 3).on_or_before(&day(2024, 2, 2)));
    assert!(!day(2025, 1, 1).on_or_before(&day(2024, 12, 31)));
}

#[test]
fn a_month_later_keeps_the_day_or_takes_the_last() {
    assert_eq!(day(2024, 1, 15).next_month(), Some(day(2024, 2, 15)));
    assert_eq!(day(2024, 1, 31).next_month(), Some(day(2024, 2, 29)));
    assert_eq!(day(2023, 1, 31).next_month(), Some(day(2023, 2, 28)));
    assert_eq!(day(2024, 2, 29).next_month(), Some(day(2024, 3, 29)));
    assert_eq!(day(2024, 3, 31).next_month(), Some(day(2024, 4, 30)));
    assert_eq!(day(2024, 12, 31).next_month(), Some(day(2025, 1, 31)));
    assert_eq!(day(-1, 12, 10).next_month(), Some(day(0, 1, 10)));
}

#[test]
fn there_is_no_month_after_the_last() {
    assert_eq!(day(MAX_YEAR, 12, 1).next_month(), None);
    assert_eq!(day(MAX_YEAR, 11, 30).next_month(), Some(day(MAX_YEAR, 12, 30)));
}

#[test]
fn a_month_later_agrees_with_the_date_crate_for_every_day_of_four_years() {
    let mut date = chrono::NaiveDate::from_ymd_opt(2023, 1, 1).unwrap();
    let end = chrono::NaiveDate::from_ymd_opt(2027, 1, 1).unwrap();
    while date < end {
        let ours = day(date.year(), date.month(), date.day()).next_month().unwrap();
        let theirs = date.checked_add_months(chrono::Months::new(1)).unwrap();
        assert_eq!((ours.year(), ours.month(), ours.day()), (theirs.year(), theirs.month(), theirs.day()));
        date = date.succ_opt().unwrap();
    }
}

#[test]
fn dates_are_read_from_text() {
    assert_eq!(Date::parse("2024-01-31"), Some(day(2024, 1, 31)));
    assert_eq!(Date::parse("2024-02-29"), Some(day(2024, 2, 29)));
    assert_eq!(Date::parse("2023-02-29"), None);
    assert_eq!(Date::parse("2024-13-01"), None);
    assert_eq!(Date::parse("not a date"), None);
    assert_eq!(Date::parse(""), None);
    assert_eq!(Date::parse("2024-01-31T10:00:00"), None);
}

#[test]
fn dates_are_written_as_text() {
    assert_eq!(day(2024, 1, 31).to_text(), "2024-01-31");
    assert_eq!(day(2024, 11, 5).to_text(), "2024-11-05");
    assert_eq!(day(987, 6, 5).to_text(), "0987-06-05");
}

#[test]
fn text_that_was_written_is_read_back() {
    for d in [day(2024, 2, 29), day(1999, 12, 31), day(1, 1, 1), day(9999, 12, 31)] {
        assert_eq!(Date::parse(&d.to_text()), Some(d));
    }
}

#[test]
fn numbers_read_from_a_text_become_a_date() {
    assert_eq!(Date::from_parsed(Some((2024, 2, 29))), Some(day(2024, 2, 29)));
    assert_eq!(Date::from_parsed(Some((2023, 2, 29))), None);
    assert_eq!(Date::from_parsed(None), None);
}

#[test]
fn today_is_the_day_of_the_local_clock() {
    let before = chrono::Local::now().date_naive();
    let today = Date::today();
    let after = chrono::Local::now().date_naive();
    let seen = chrono::NaiveDate::from_ymd_opt(today.year(), today.month(), today.day()).unwrap();
    assert!(before <= seen && seen <= after);
    assert!(today.year() >= 2024);
}

fn leap(year: i64) -> bool {
    (year.rem_euclid(4) == 0 && year.rem_euclid(100) != 0) || year.rem_euclid(400) == 0
}

fn days_in(year: i64, month: i64) -> i64 {
    match month {
        2 => {
            if leap(year) {
                29
            } else {
                28
            }
        }
        4 | 6 | 9 | 11 => 30,
        _ => 31,
    }
}

fn in_range(year: i64) -> bool {
    MIN_YEAR as i64 <= year && year <= MAX_YEAR as i64
}

fn months_moved(year: i64, month: i64, day: i64, by: i64) -> Option<Date> {
    let index = year * 12 + month - 1 + by;
    let (y, m) = (index.div_euclid(12), index.rem_euclid(12) + 1);
    let d = day.min(days_in(y, m));
    if in_range(y) {
        Date::new(y as i32, m as u32, d as u32)
    } else {
        None
    }
}

fn day_before(year: i64, month: i64, day: i64) -> Option<Date> {
    let (y, m, d) = if day > 1 {
        (year, month, day - 1)
    } else if month > 1 {
        (year, month - 1, days_in(year, month - 1))
    } else {
        (year - 1, 12, 31)
    };
    if in_range(y) {
        Date::new(y as i32, m as u32, d as u32)
    } else {
        None
    }
}

#[test]
fn the_moves_of_a_date_are_those_of_the_calendar() {
    let years = [MIN_YEAR, MIN_YEAR + 1, -401, -400, -1, 0, 1, 1900, 2000, 2023, 2024, 2100, MAX_YEAR - 1, MAX_YEAR];
    let steps = [0u32, 1, 2, 11, 12, 13, 1200, 5_000_000, 3_145_716, 6_291_431, 6_291_432, u32::MAX];
    for year in years {
        for month in 1..=12u32 {
            for number in 1..=31u32 {
                let date = match Date::new(year, month, number) {
                    Some(date) => date,
                    None => {
                        assert!(number as i64 > days_in(year as i64, month as i64));
                        continue;
                    }
                };
                let (y, m, d) = (year as i64, month as i64, number as i64);
                assert_eq!(date.next_month(), months_moved(y, m, d, 1));
                assert_eq!(date.previous_day(), day_before(y, m, d));
                assert_eq!(date.first_of_month(), day(year, month, 1));
                for by in steps {
                    assert_eq!(date.months_before(by), months_moved(y, m, d, -(by as i64)));
                }
            }
        }
    }
}

#[test]
fn the_text_of_a_date_has_its_year_its_month_and_its_day() {
    for (y, m, d, text, label) in [
        (2024, 1, 31, "2024-01-31", "2024-01"),
        (5, 12, 1, "0005-12-01", "0005-12"),
        (0, 1, 1, "0000-01-01", "0000-01"),
        (9999, 12, 31, "9999-12-31", "9999-12"),
    ] {
        assert_eq!(day(y, m, d).to_text(), text);
        assert_eq!(day(y, m, d).year_month_text(), label);
    }
}

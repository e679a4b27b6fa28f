use ten10::calendar::{Date, MAX_YEAR, MIN_YEAR};
use ten10::processor::{Outcome, Summary};
use ten10::report::month_windows;
use ten10::schedule::EngineError;
use ten10::text::{decimal, join, same_text};
use ten10::transaction_types::{donations_in_range_query, expenses_in_range_query};

fn day(year: i32, month: u32, day: u32) -> Date {
    Date::new(year, month, day).expect("a day of the calendar")
}

#[test]
fn the_months_of_a_chart_end_with_the_month_of_the_last_day() {
    let windows = month_windows(&day(2024, 3, 15), 4).unwrap();
    let seen: Vec<(String, Date, Date)> = windows.into_iter().map(|w| (w.label, w.first_day, w.last_day)).collect();
    assert_eq!(
        seen,
        vec![
            ("2023-12".to_string(), day(2023, 12, 1), day(2023, 12, 31)),
            ("2024-01".to_string(), day(2024, 1, 1), day(2024, 1, 31)),
            ("2024-02".to_string(), day(2024, 2, 1), day(2024, 2, 29)),
            ("2024-03".to_string(), day(2024, 3, 1), day(2024, 3, 31)),
        ]
    );
}

#[test]
fn one_month_is_the_month_of_the_last_day() {
    let windows = month_windows(&day(2023, 2, 28), 1).unwrap();
    assert_eq!(windows.len(), 1);
    assert_eq!(windows[0].label, "2023-02");
    assert_eq!(windows[0].first_day, day(2023, 2, 1));
    assert_eq!(windows[0].last_day, day(2023, 2, 28));
    assert_eq!(windows[0].first_day.to_text(), "2023-02-01");
    assert_eq!(windows[0].last_day.to_text(), "2023-02-28");
}

#[test]
fn there_is_no_chart_of_no_months() {
    assert!(month_windows(&day(2024, 3, 15), 0).is_none());
    assert!(month_windows(&day(2024, 3, 15), -3).is_none());
    assert!(month_windows(&day(2024, 3, 15), i32::MIN).is_none());
}

#[test]
fn a_chart_stays_within_the_calendar() {
    assert!(month_windows(&day(MIN_YEAR, 2, 10), 2).is_some());
    assert!(month_windows(&day(MIN_YEAR, 2, 10), 3).is_none());
    assert!(month_windows(&day(MAX_YEAR, 11, 10), 2).is_some());
    assert!(month_windows(&day(MAX_YEAR, 12, 10), 2).is_none());
    assert!(month_windows(&day(2024, 1, 1), i32::MAX).is_none());
}

#[test]
fn a_chart_of_many_months_has_one_window_for_each() {
    let windows = month_windows(&day(2024, 6, 30), 120).unwrap();
    assert_eq!(windows.len(), 120);
    assert_eq!(windows[0].label, "2014-07");
    assert_eq!(windows[119].label, "2024-06");
    for pair in windows.windows(2) {
        assert_eq!(pair[0].last_day.next_month().map(|d| d.first_of_month()), Some(pair[1].first_day));
        assert!(pair[0].last_day.before(&pair[1].first_day));
    }
}

#[test]
fn days_step_back_and_months_step_back() {
    assert_eq!(day(2024, 3, 1).previous_day(), Some(day(2024, 2, 29)));
    assert_eq!(day(2023, 3, 1).previous_day(), Some(day(2023, 2, 28)));
    assert_eq!(day(2024, 1, 1).previous_day(), Some(day(2023, 12, 31)));
    assert_eq!(day(2024, 1, 15).previous_day(), Some(day(2024, 1, 14)));
    assert_eq!(day(MIN_YEAR, 1, 1).previous_day(), None);
    assert_eq!(day(2024, 3, 31).months_before(1), Some(day(2024, 2, 29)));
    assert_eq!(day(2024, 3, 31).months_before(0), Some(day(2024, 3, 31)));
    assert_eq!(day(2024, 3, 31).months_before(13), Some(day(2023, 2, 28)));
    assert_eq!(day(2024, 1, 10).months_before(1), Some(day(2023, 12, 10)));
    assert_eq!(day(MIN_YEAR, 1, 10).months_before(1), None);
    assert_eq!(day(2024, 1, 10).months_before(u32::MAX), None);
    assert_eq!(day(2024, 7, 19).first_of_month(), day(2024, 7, 1));
    assert_eq!(day(2024, 7, 19).year_month_text(), "2024-07");
}

#[test]
fn a_run_is_reported_in_words() {
    let summary = Summary {
        processed_occurrences: 12,
        definitions_considered: 3,
        outcomes: vec![
            Outcome::Processed(5),
            Outcome::Failed(EngineError::UnsupportedFrequency),
            Outcome::Processed(7),
        ],
    };
    assert_eq!(
        summary.message("1.5ms"),
        "Execution finished in 1.5ms. Processed 12 transaction occurrence(s) from 3 definition(s)."
    );
    let nothing = Summary { processed_occurrences: 0, definitions_considered: 0, outcomes: vec![] };
    assert_eq!(nothing.message("2ms"), "No recurring transactions were due. Execution finished.");
    let failed = Summary {
        processed_occurrences: 0,
        definitions_considered: 1,
        outcomes: vec![Outcome::Failed(EngineError::CommitFailure)],
    };
    assert_eq!(
        failed.message("9s"),
        "Execution finished in 9s. Processed 0 transaction occurrence(s) from 1 definition(s)."
    );
}

#[test]
fn numbers_are_written_in_decimal() {
    assert_eq!(decimal(0), "0");
    assert_eq!(decimal(7), "7");
    assert_eq!(decimal(10), "10");
    assert_eq!(decimal(1234567890), "1234567890");
    assert_eq!(decimal(u128::MAX), u128::MAX.to_string());
}

#[test]
fn parts_are_joined_with_a_separator() {
    assert_eq!(join(&vec![], ", "), "");
    assert_eq!(join(&vec!["a".to_string()], ", "), "a");
    assert_eq!(join(&vec!["a".to_string(), "b".to_string(), "".to_string()], " AND "), "a AND b AND ");
}

#[test]
fn texts_are_the_same_where_their_characters_are() {
    assert!(same_text("monthly", "monthly"));
    assert!(!same_text("monthly", "Monthly"));
    assert!(!same_text("monthly", "monthl"));
    assert!(same_text("", ""));
}

#[test]
fn the_range_queries_select_their_type_groups() {
    assert_eq!(
        donations_in_range_query(),
        "SELECT COALESCE(SUM(CASE WHEN type = 'donation' OR type = 'non_tithe_donation' THEN amount ELSE 0 END), 0) AS total_donations_amount, COALESCE(SUM(CASE WHEN type = 'non_tithe_donation' THEN amount ELSE 0 END), 0) AS non_tithe_donation_amount FROM transactions WHERE (type = 'donation' OR type = 'non_tithe_donation') AND date >= ?1 AND date <= ?2;"
    );
    assert_eq!(
        expenses_in_range_query(),
        "SELECT COALESCE(SUM(amount), 0) FROM transactions WHERE (type = 'expense' OR type = 'recognized-expense') AND date >= ?1 AND date <= ?2;"
    );
}

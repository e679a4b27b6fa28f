use ten10::calendar::Date;
use ten10::schedule::{Amount, EngineError, Payload, RecurringTransaction, Status};
use ten10::schema::{column_exists, migration_statements};
use ten10::tithe::{tithe_effect, TitheEffect};

fn names(list: &[&str]) -> Vec<String> {
    list.iter().map(|s| s.to_string()).collect()
}

#[test]
fn columns_are_found_whatever_the_case_of_their_letters() {
    let columns = names(&["id", "Date", "AMOUNT", "source_recurring_id"]);
    assert!(column_exists(&columns, "date"));
    assert!(column_exists(&columns, "DATE"));
    assert!(column_exists(&columns, "amount"));
    assert!(column_exists(&columns, "Source_Recurring_Id"));
    assert!(!column_exists(&columns, "dat"));
    assert!(!column_exists(&columns, "dates"));
    assert!(!column_exists(&columns, "occurrence_number"));
    assert!(!column_exists(&vec![], "id"));
}

#[test]
fn only_ascii_letters_lose_their_case() {
    assert!(column_exists(&names(&["straße"]), "STRAßE"));
    assert!(!column_exists(&names(&["ärger"]), "Ärger"));
    assert!(!column_exists(&names(&["a_b"]), "a-b"));
    assert!(!column_exists(&names(&["@"]), "`"));
    assert!(!column_exists(&names(&["["]), "{"));
}

#[test]
fn a_fresh_table_gets_its_two_new_columns() {
    let columns = names(&["id", "user_id", "date", "amount", "currency", "description", "type", "category", "is_chomesh", "recipient", "created_at", "updated_at"]);
    assert_eq!(
        migration_statements(&columns),
        vec![
            "ALTER TABLE transactions ADD COLUMN source_recurring_id TEXT",
            "ALTER TABLE transactions ADD COLUMN occurrence_number INTEGER",
        ]
    );
}

#[test]
fn an_old_table_loses_its_old_columns() {
    let columns = names(&["id", "is_recurring", "Recurring_Day_Of_Month", "recurring_total_count", "source_recurring_id"]);
    assert_eq!(
        migration_statements(&columns),
        vec![
            "ALTER TABLE transactions ADD COLUMN occurrence_number INTEGER",
            "ALTER TABLE transactions DROP COLUMN is_recurring",
            "ALTER TABLE transactions DROP COLUMN recurring_day_of_month",
            "ALTER TABLE transactions DROP COLUMN recurring_total_count",
        ]
    );
}

#[test]
fn a_present_table_needs_no_change() {
    let columns = names(&["id", "source_recurring_id", "occurrence_number"]);
    assert!(migration_statements(&columns).is_empty());
}

#[test]
fn each_kind_of_transaction_has_its_effect_on_the_tithe() {
    assert_eq!(tithe_effect("income", None), TitheEffect::OwedTenth);
    assert_eq!(tithe_effect("income", Some(0)), TitheEffect::OwedTenth);
    assert_eq!(tithe_effect("income", Some(1)), TitheEffect::OwedFifth);
    assert_eq!(tithe_effect("income", Some(2)), TitheEffect::OwedTenth);
    assert_eq!(tithe_effect("donation", Some(1)), TitheEffect::PaidWhole);
    assert_eq!(tithe_effect("recognized-expense", None), TitheEffect::PaidTenth);
    assert_eq!(tithe_effect("expense", None), TitheEffect::Nothing);
    assert_eq!(tithe_effect("exempt-income", Some(1)), TitheEffect::Nothing);
    assert_eq!(tithe_effect("non_tithe_donation", None), TitheEffect::Nothing);
    assert_eq!(tithe_effect("Income", None), TitheEffect::Nothing);
    assert_eq!(tithe_effect("", None), TitheEffect::Nothing);
}

#[test]
fn the_status_has_its_words() {
    assert_eq!(Status::Active.as_text(), "active");
    assert_eq!(Status::Completed.as_text(), "completed");
    assert_eq!(Status::from_text("active"), Some(Status::Active));
    assert_eq!(Status::from_text("completed"), Some(Status::Completed));
    assert_eq!(Status::from_text("Active"), None);
    assert_eq!(Status::from_text("paused"), None);
    assert_eq!(Status::from_text(""), None);
}

#[test]
fn the_schedule_of_an_obligation_is_shown_in_words() {
    let obligation = RecurringTransaction {
        id: "r-1".to_string(),
        status: Status::Completed,
        start_date: Date::new(2023, 11, 30).unwrap(),
        next_due_date: Date::new(2024, 2, 29).unwrap(),
        frequency: "monthly".to_string(),
        day_of_month: 30,
        total_occurrences: Some(3),
        execution_count: 3,
        payload: Payload {
            user_id: None,
            amount: Amount { bits: 10f64.to_bits() },
            currency: "USD".to_string(),
            description: None,
            type_str: "donation".to_string(),
            category: None,
            is_chomesh: None,
            recipient: None,
        },
        created_at: "c".to_string(),
        updated_at: "u".to_string(),
    };
    let info = obligation.info();
    assert_eq!(info.status, "completed");
    assert_eq!(info.frequency, "monthly");
    assert_eq!(info.execution_count, 3);
    assert_eq!(info.total_occurrences, Some(3));
    assert_eq!(info.day_of_month, 30);
    assert_eq!(info.start_date, "2023-11-30");
    assert_eq!(info.next_due_date, "2024-02-29");
    assert!(obligation.is_monthly());
    assert!(!obligation.is_due(&Date::new(2024, 3, 1).unwrap()));
    let copy = obligation.snapshot();
    assert_eq!(copy.id, "r-1");
    assert_eq!(copy.payload.snapshot().currency, "USD");
    assert_eq!(copy.updated_at, "u");
}

#[test]
fn each_failure_has_its_words() {
    use_words(EngineError::SelectionFailure, "the due obligations could not be read");
    use_words(EngineError::UnsupportedFrequency, "the frequency is not supported");
    use_words(EngineError::DateArithmeticFailure, "the next due date cannot be computed");
    use_words(EngineError::StorageWriteFailure, "a write was refused");
    use_words(EngineError::CommitFailure, "the commit was refused");
}

fn use_words(error: EngineError, words: &str) {
    assert_eq!(error.describe(), words);
}

use ten10::book::{Book, Fault, Write};
use ten10::calendar::Date;
use ten10::processor::{Action, Event, Outcome, Processor};
use ten10::schedule::{Amount, EngineError, Payload, RecurringTransaction, Status, Transaction};

fn day(year: i32, month: u32, day: u32) -> Date {
    Date::new(year, month, day).expect("a day of the calendar")
}

fn obligation(id: &str, next_due: Date, cap: Option<i32>, count: i32) -> RecurringTransaction {
    RecurringTransaction {
        id: id.to_string(),
        status: Status::Active,
        start_date: next_due,
        next_due_date: next_due,
        frequency: "monthly".to_string(),
        day_of_month: next_due.day() as i32,
        total_occurrences: cap,
        execution_count: count,
        payload: Payload {
            user_id: Some("user-1".to_string()),
            amount: Amount { bits: 99.9f64.to_bits() },
            currency: "USD".to_string(),
            description: Some(format!("{} fee", id)),
            type_str: "expense".to_string(),
            category: None,
            is_chomesh: None,
            recipient: Some("landlord".to_string()),
        },
        created_at: "2023-12-01T08:00:00+02:00".to_string(),
        updated_at: "2023-12-01T08:00:00+02:00".to_string(),
    }
}

fn one_off(id: &str, date: Date) -> Transaction {
    Transaction {
        id: id.to_string(),
        date,
        source_recurring_id: None,
        payload: obligation("x", date, None, 0).payload,
        created_at: None,
        updated_at: None,
    }
}

fn dates_from(book: &Book, id: &str) -> Vec<Date> {
    book.ledger
        .iter()
        .filter(|entry| entry.source_recurring_id.as_deref() == Some(id))
        .map(|entry| entry.date)
        .collect()
}

#[test]
fn the_scenario_of_the_end_of_january() {
    let mut book = Book { obligations: vec![obligation("X", day(2024, 1, 31), None, 2)], ledger: vec![] };
    let summary = book.run(&day(2024, 4, 15), &vec![]);
    assert_eq!(dates_from(&book, "X"), vec![day(2024, 1, 31), day(2024, 2, 29), day(2024, 3, 29)]);
    assert_eq!(book.obligations[0].execution_count, 5);
    assert_eq!(book.obligations[0].next_due_date, day(2024, 4, 29));
    assert_eq!(book.obligations[0].status, Status::Active);
    assert_eq!(summary.processed_occurrences, 3);
    assert_eq!(summary.definitions_considered, 1);
    assert_eq!(summary.outcomes, vec![Outcome::Processed(3)]);
}

#[test]
fn entries_carry_the_payload_and_name_their_obligation() {
    let source = obligation("gym", day(2024, 3, 5), None, 0);
    let mut book = Book { obligations: vec![obligation("gym", day(2024, 3, 5), None, 0)], ledger: vec![] };
    book.run(&day(2024, 3, 5), &vec![]);
    assert_eq!(book.ledger.len(), 1);
    let entry = &book.ledger[0];
    assert_eq!(entry.date, day(2024, 3, 5));
    assert_eq!(entry.source_recurring_id.as_deref(), Some("gym"));
    assert_eq!(entry.payload.user_id, source.payload.user_id);
    assert_eq!(entry.payload.amount, source.payload.amount);
    assert_eq!(f64::from_bits(entry.payload.amount.bits), 99.9);
    assert_eq!(entry.payload.currency, "USD");
    assert_eq!(entry.payload.description.as_deref(), Some("gym fee"));
    assert_eq!(entry.payload.type_str, "expense");
    assert_eq!(entry.payload.category, None);
    assert_eq!(entry.payload.is_chomesh, None);
    assert_eq!(entry.payload.recipient.as_deref(), Some("landlord"));
}

#[test]
fn entries_get_fresh_identifiers_and_the_time_of_writing() {
    let mut book = Book { obligations: vec![obligation("gym", day(2024, 1, 5), None, 0)], ledger: vec![] };
    book.run(&day(2024, 3, 5), &vec![]);
    assert_eq!(book.ledger.len(), 3);
    for entry in &book.ledger {
        assert_eq!(entry.id.len(), 36);
        assert!(uuid::Uuid::parse_str(&entry.id).is_ok());
        let stamp = entry.created_at.as_deref().expect("a stamp");
        assert!(chrono::DateTime::parse_from_rfc3339(stamp).is_ok());
        assert_eq!(entry.created_at, entry.updated_at);
    }
    assert_ne!(book.ledger[0].id, book.ledger[1].id);
    assert_ne!(book.ledger[1].id, book.ledger[2].id);
    assert_ne!(book.ledger[0].id, book.ledger[2].id);
    assert!(chrono::DateTime::parse_from_rfc3339(&book.obligations[0].updated_at).is_ok());
    assert_ne!(book.obligations[0].updated_at, "2023-12-01T08:00:00+02:00");
    assert_eq!(book.obligations[0].created_at, "2023-12-01T08:00:00+02:00");
}

#[test]
fn a_refused_insert_leaves_nothing_of_the_unit() {
    let mut book = Book {
        obligations: vec![obligation("A", day(2024, 1, 10), None, 7)],
        ledger: vec![one_off("cash", day(2024, 1, 2))],
    };
    let faults = vec![Fault { unit: 0, write: Write::Insert(1) }];
    let summary = book.run(&day(2024, 3, 20), &faults);
    assert_eq!(book.ledger.len(), 1);
    assert_eq!(book.ledger[0].id, "cash");
    assert!(dates_from(&book, "A").is_empty());
    assert_eq!(book.obligations[0].next_due_date, day(2024, 1, 10));
    assert_eq!(book.obligations[0].execution_count, 7);
    assert_eq!(book.obligations[0].status, Status::Active);
    assert_eq!(book.obligations[0].updated_at, "2023-12-01T08:00:00+02:00");
    assert_eq!(summary.outcomes, vec![Outcome::Failed(EngineError::StorageWriteFailure)]);
    assert_eq!(summary.processed_occurrences, 0);
    assert_eq!(summary.definitions_considered, 1);
}

#[test]
fn a_failure_on_one_obligation_leaves_the_next_one_whole() {
    let mut book = Book {
        obligations: vec![
            obligation("A", day(2024, 1, 10), None, 0),
            obligation("B", day(2024, 2, 15), None, 1),
        ],
        ledger: vec![],
    };
    let faults = vec![Fault { unit: 0, write: Write::Insert(1) }];
    let summary = book.run(&day(2024, 3, 20), &faults);
    assert!(dates_from(&book, "A").is_empty());
    assert_eq!(book.obligations[0].next_due_date, day(2024, 1, 10));
    assert_eq!(dates_from(&book, "B"), vec![day(2024, 2, 15), day(2024, 3, 15)]);
    assert_eq!(book.obligations[1].next_due_date, day(2024, 4, 15));
    assert_eq!(book.obligations[1].execution_count, 3);
    assert_eq!(
        summary.outcomes,
        vec![Outcome::Failed(EngineError::StorageWriteFailure), Outcome::Processed(2)]
    );
    assert_eq!(summary.processed_occurrences, 2);
    assert_eq!(summary.definitions_considered, 2);
}

#[test]
fn every_kind_of_refusal_fails_its_unit_alone() {
    for (write, error) in [
        (Write::Begin, EngineError::StorageWriteFailure),
        (Write::Insert(0), EngineError::StorageWriteFailure),
        (Write::Advance, EngineError::StorageWriteFailure),
        (Write::Commit, EngineError::CommitFailure),
    ] {
        let mut book = Book {
            obligations: vec![
                obligation("A", day(2024, 1, 10), None, 0),
                obligation("B", day(2024, 1, 11), None, 0),
                obligation("C", day(2024, 1, 12), None, 0),
            ],
            ledger: vec![],
        };
        let summary = book.run(&day(2024, 1, 31), &vec![Fault { unit: 1, write }]);
        assert_eq!(
            summary.outcomes,
            vec![Outcome::Processed(1), Outcome::Failed(error), Outcome::Processed(1)]
        );
        assert_eq!(dates_from(&book, "A"), vec![day(2024, 1, 10)]);
        assert!(dates_from(&book, "B").is_empty());
        assert_eq!(dates_from(&book, "C"), vec![day(2024, 1, 12)]);
        assert_eq!(book.obligations[1].next_due_date, day(2024, 1, 11));
        assert_eq!(book.obligations[1].execution_count, 0);
        assert_eq!(summary.processed_occurrences, 2);
    }
}

#[test]
fn a_refusal_of_a_write_that_is_never_asked_for_changes_nothing() {
    let mut book = Book { obligations: vec![obligation("A", day(2024, 1, 10), None, 0)], ledger: vec![] };
    let faults = vec![Fault { unit: 0, write: Write::Insert(5) }, Fault { unit: 3, write: Write::Begin }];
    let summary = book.run(&day(2024, 2, 20), &faults);
    assert_eq!(summary.outcomes, vec![Outcome::Processed(2)]);
    assert_eq!(book.ledger.len(), 2);
}

#[test]
fn an_unsupported_cadence_fails_its_obligation_alone() {
    let mut yearly = obligation("Y", day(2023, 1, 10), None, 0);
    yearly.frequency = "yearly".to_string();
    let mut book = Book {
        obligations: vec![yearly, obligation("M", day(2024, 1, 10), None, 0)],
        ledger: vec![],
    };
    let summary = book.run(&day(2024, 1, 31), &vec![]);
    assert_eq!(
        summary.outcomes,
        vec![Outcome::Failed(EngineError::UnsupportedFrequency), Outcome::Processed(1)]
    );
    assert_eq!(book.obligations[0].next_due_date, day(2023, 1, 10));
    assert_eq!(book.obligations[0].execution_count, 0);
    assert!(dates_from(&book, "Y").is_empty());
    assert_eq!(dates_from(&book, "M"), vec![day(2024, 1, 10)]);
}

#[test]
fn obligations_that_are_not_due_are_left_as_they_are() {
    let mut done = obligation("done", day(2023, 6, 1), Some(3), 3);
    done.status = Status::Completed;
    let mut book = Book {
        obligations: vec![
            obligation("later", day(2024, 2, 1), None, 4),
            done,
            obligation("now", day(2024, 1, 31), None, 0),
        ],
        ledger: vec![],
    };
    let summary = book.run(&day(2024, 1, 31), &vec![]);
    assert_eq!(summary.definitions_considered, 1);
    assert_eq!(book.obligations[0].next_due_date, day(2024, 2, 1));
    assert_eq!(book.obligations[0].execution_count, 4);
    assert_eq!(book.obligations[0].updated_at, "2023-12-01T08:00:00+02:00");
    assert_eq!(book.obligations[1].next_due_date, day(2023, 6, 1));
    assert_eq!(book.obligations[1].status, Status::Completed);
    assert_eq!(book.obligations[1].updated_at, "2023-12-01T08:00:00+02:00");
    assert_eq!(dates_from(&book, "now"), vec![day(2024, 1, 31)]);
    assert_eq!(book.ledger.len(), 1);
}

#[test]
fn the_due_set_holds_the_active_obligations_that_have_arrived() {
    let mut done = obligation("done", day(2023, 6, 1), Some(3), 3);
    done.status = Status::Completed;
    let book = Book {
        obligations: vec![
            obligation("c", day(2024, 1, 31), None, 0),
            obligation("later", day(2024, 2, 1), None, 4),
            done,
            obligation("a", day(2020, 1, 1), None, 0),
        ],
        ledger: vec![],
    };
    let due = book.due(&day(2024, 1, 31));
    let ids: Vec<&str> = due.iter().map(|o| o.id.as_str()).collect();
    assert_eq!(ids, vec!["c", "a"]);
    assert_eq!(book.obligations.len(), 4);
}

#[test]
fn a_second_run_on_the_same_day_changes_nothing() {
    let mut book = Book {
        obligations: vec![
            obligation("A", day(2024, 1, 10), Some(2), 0),
            obligation("B", day(2024, 2, 15), None, 1),
        ],
        ledger: vec![one_off("cash", day(2024, 1, 2))],
    };
    let today = day(2024, 6, 1);
    let first = book.run(&today, &vec![]);
    assert_eq!(first.outcomes, vec![Outcome::Processed(2), Outcome::Processed(4)]);
    assert_eq!(book.obligations[0].status, Status::Completed);
    let ledger: Vec<(String, Date)> = book.ledger.iter().map(|e| (e.id.clone(), e.date)).collect();
    let states: Vec<(Date, i32, Status, String)> = book
        .obligations
        .iter()
        .map(|o| (o.next_due_date, o.execution_count, o.status, o.updated_at.clone()))
        .collect();
    let second = book.run(&today, &vec![Fault { unit: 0, write: Write::Begin }]);
    assert_eq!(second.definitions_considered, 0);
    assert_eq!(second.processed_occurrences, 0);
    assert!(second.outcomes.is_empty());
    let ledger_again: Vec<(String, Date)> = book.ledger.iter().map(|e| (e.id.clone(), e.date)).collect();
    let states_again: Vec<(Date, i32, Status, String)> = book
        .obligations
        .iter()
        .map(|o| (o.next_due_date, o.execution_count, o.status, o.updated_at.clone()))
        .collect();
    assert_eq!(ledger, ledger_again);
    assert_eq!(states, states_again);
}

#[test]
fn a_failed_unit_is_taken_up_again_by_the_next_run() {
    let mut book = Book { obligations: vec![obligation("A", day(2024, 1, 10), None, 0)], ledger: vec![] };
    let today = day(2024, 2, 10);
    let first = book.run(&today, &vec![Fault { unit: 0, write: Write::Commit }]);
    assert_eq!(first.outcomes, vec![Outcome::Failed(EngineError::CommitFailure)]);
    assert!(book.ledger.is_empty());
    let second = book.run(&today, &vec![]);
    assert_eq!(second.outcomes, vec![Outcome::Processed(2)]);
    assert_eq!(dates_from(&book, "A"), vec![day(2024, 1, 10), day(2024, 2, 10)]);
}

#[test]
fn the_cap_completes_an_obligation_in_the_book() {
    let mut book = Book { obligations: vec![obligation("A", day(2024, 1, 10), Some(5), 3)], ledger: vec![] };
    let summary = book.run(&day(2024, 12, 1), &vec![]);
    assert_eq!(summary.outcomes, vec![Outcome::Processed(2)]);
    assert_eq!(book.ledger.len(), 2);
    assert_eq!(book.obligations[0].execution_count, 5);
    assert_eq!(book.obligations[0].status, Status::Completed);
    assert_eq!(book.obligations[0].next_due_date, day(2024, 3, 10));
}

#[test]
fn an_empty_due_set_finishes_at_once() {
    let (_, action) = Processor::start(Some(day(2024, 1, 1)), vec![]);
    match action {
        Action::Finish(summary) => {
            assert_eq!(summary.processed_occurrences, 0);
            assert_eq!(summary.definitions_considered, 0);
            assert!(summary.outcomes.is_empty());
        }
        other => panic!("unexpected request {:?}", other),
    }
}

#[test]
fn the_requests_of_a_unit_come_in_their_order() {
    let due = vec![obligation("A", day(2024, 1, 31), None, 0)];
    let (machine, action) = Processor::start(Some(day(2024, 3, 1)), due);
    assert!(matches!(action, Action::Begin));
    assert_eq!(machine.unit(), 0);
    let (machine, action) = machine.step_with(Event::Done, "id-1".to_string(), "t1".to_string());
    match action {
        Action::Insert(entry) => {
            assert_eq!(entry.id, "id-1");
            assert_eq!(entry.date, day(2024, 1, 31));
            assert_eq!(entry.created_at.as_deref(), Some("t1"));
            assert_eq!(entry.updated_at.as_deref(), Some("t1"));
            assert_eq!(entry.source_recurring_id.as_deref(), Some("A"));
        }
        other => panic!("unexpected request {:?}", other),
    }
    let (machine, action) = machine.step_with(Event::Done, "id-2".to_string(), "t2".to_string());
    match action {
        Action::Insert(entry) => {
            assert_eq!(entry.id, "id-2");
            assert_eq!(entry.date, day(2024, 2, 29));
        }
        other => panic!("unexpected request {:?}", other),
    }
    let (machine, action) = machine.step_with(Event::Done, "id-3".to_string(), "t3".to_string());
    match action {
        Action::Advance(update) => {
            assert_eq!(update.id, "A");
            assert_eq!(update.next_due_date, day(2024, 3, 29));
            assert_eq!(update.execution_count, 2);
            assert_eq!(update.status, Status::Active);
            assert_eq!(update.updated_at, "t3");
        }
        other => panic!("unexpected request {:?}", other),
    }
    let (machine, action) = machine.step_with(Event::Done, "id-4".to_string(), "t4".to_string());
    assert!(matches!(action, Action::Commit));
    let (machine, action) = machine.step_with(Event::Done, "id-5".to_string(), "t5".to_string());
    assert_eq!(machine.unit(), 1);
    match action {
        Action::Finish(summary) => {
            assert_eq!(summary.processed_occurrences, 2);
            assert_eq!(summary.definitions_considered, 1);
            assert_eq!(summary.outcomes, vec![Outcome::Processed(2)]);
        }
        other => panic!("unexpected request {:?}", other),
    }
    let (_, action) = machine.step(Event::Failed);
    assert!(matches!(action, Action::Finish(_)));
}

#[test]
fn a_refused_advance_is_followed_by_a_rollback_and_the_next_unit() {
    let due = vec![
        obligation("A", day(2024, 3, 1), None, 0),
        obligation("B", day(2024, 3, 1), None, 0),
    ];
    let (machine, _) = Processor::start(Some(day(2024, 3, 1)), due);
    let (machine, action) = machine.step(Event::Done);
    assert!(matches!(action, Action::Insert(_)));
    let (machine, action) = machine.step(Event::Done);
    assert!(matches!(action, Action::Advance(_)));
    let (machine, action) = machine.step(Event::Failed);
    assert!(matches!(action, Action::Rollback));
    let (machine, action) = machine.step(Event::Failed);
    assert!(matches!(action, Action::Begin));
    assert_eq!(machine.unit(), 1);
    let (machine, action) = machine.step(Event::Failed);
    match action {
        Action::Finish(summary) => assert_eq!(
            summary.outcomes,
            vec![
                Outcome::Failed(EngineError::StorageWriteFailure),
                Outcome::Failed(EngineError::StorageWriteFailure)
            ]
        ),
        other => panic!("unexpected request {:?}", other),
    }
    assert_eq!(machine.unit(), 2);
}

#[test]
fn a_run_without_a_day_is_a_run_on_the_day_of_the_clock() {
    let due = vec![obligation("A", Date::today(), None, 0)];
    let (machine, action) = Processor::start(None, due);
    assert!(matches!(action, Action::Begin));
    let (_, action) = machine.step(Event::Done);
    match action {
        Action::Insert(entry) => assert_eq!(entry.date, Date::today()),
        other => panic!("unexpected request {:?}", other),
    }
}

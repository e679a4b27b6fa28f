//! The months of a chart, and the words in which a run is reported.

use crate::calendar::{days_in_month, formatted, Date, Ymd, MAX_YEAR, MIN_YEAR};
use crate::processor::{Summary, Tally};
use crate::text::{decimal, decimal_of};
use vstd::prelude::*;

verus! {

/// One month of a chart: its label, its first day and its last day.
#[derive(Debug)]
pub struct MonthWindow {
    /// The year and the month, with a hyphen between them.
    pub label: String,
    pub first_day: Date,
    pub last_day: Date,
}

/// The first day of the month with this number, counted from January of
/// year 0.
pub open spec fn first_of(index: int) -> Ymd {
    Ymd { year: index / 12, month: index % 12 + 1, day: 1 }
}

/// The last day of the month with this number, counted from January of
/// year 0.
pub open spec fn last_of(index: int) -> Ymd {
    Ymd { year: index / 12, month: index % 12 + 1, day: days_in_month(index / 12, index % 12 + 1) }
}

/// The calendar holds the `months` months that end with the month of `end`,
/// and the month after them.
pub open spec fn months_exist(end: Ymd, months: int) -> bool {
    &&& months >= 1
    &&& end.month_index() - (months - 1) >= MIN_YEAR * 12
    &&& end.month_index() + 1 <= MAX_YEAR * 12 + 11
}

/// The `num_months` months that end with the month of `end`, earliest first,
/// or nothing where there is no such number of months or the calendar does
/// not hold them.
pub fn month_windows(end: &Date, num_months: i32) -> (r: Option<Vec<MonthWindow>>)
    ensures
        r is Some <==> months_exist(end@, num_months as int),
        r matches Some(windows) ==> {
            &&& windows@.len() == num_months
            &&& forall|i: int|
                0 <= i < windows@.len() ==> {
                    let index = end@.month_index() - (num_months - 1) + i;
                    &&& (#[trigger] windows@[i]).first_day@ == first_of(index)
                    &&& windows@[i].last_day@ == last_of(index)
                    &&& windows@[i].label@ == formatted("%Y-%m"@, index / 12, index % 12 + 1, 1)
                }
        },
{
    if num_months < 1 {
        return None;
    }
    proof {
        end.lemma_valid();
    }
    let last_first = end.first_of_month();
    let start = match last_first.months_before((num_months - 1) as u32) {
        Some(start) => start,
        None => {
            return None;
        },
    };
    let ghost first_index = end@.month_index() - (num_months - 1);
    let mut current = start;
    let mut windows: Vec<MonthWindow> = Vec::new();
    while current.on_or_before(&last_first)
        invariant
            end@.valid(),
            last_first@ == end@.first_of_month(),
            first_index == end@.month_index() - (num_months - 1),
            num_months >= 1,
            first_index >= MIN_YEAR * 12,
            windows@.len() <= num_months,
            current@ == first_of(first_index + windows@.len()),
            current@.valid(),
            forall|i: int|
                0 <= i < windows@.len() ==> {
                    &&& (#[trigger] windows@[i]).first_day@ == first_of(first_index + i)
                    &&& windows@[i].last_day@ == last_of(first_index + i)
                    &&& windows@[i].label@ == formatted(
                        "%Y-%m"@,
                        (first_index + i) / 12,
                        (first_index + i) % 12 + 1,
                        1,
                    )
                },
        decreases end@.month_index() - current@.month_index() + 1,
    {
        let next = match current.next_month() {
            Some(next) => next,
            None => {
                return None;
            },
        };
        let last = match next.previous_day() {
            Some(last) => last,
            None => {
                return None;
            },
        };
        let label = current.year_month_text();
        windows.push(MonthWindow { label, first_day: current, last_day: last });
        current = next;
    }
    Some(windows)
}

/// The words in which a run is reported: that nothing was due, or how many
/// occurrences were booked from how many obligations, after the time that
/// the run took, which the caller has measured and put into words.
pub open spec fn report_of(tally: Tally, elapsed: Seq<char>) -> Seq<char> {
    if tally.definitions_considered == 0 {
        "No recurring transactions were due. Execution finished."@
    } else {
        "Execution finished in "@ + elapsed + ". Processed "@ + decimal_of(
            tally.processed_occurrences,
        ) + " transaction occurrence(s) from "@ + decimal_of(tally.definitions_considered)
            + " definition(s)."@
    }
}

impl Summary {
    /// The words in which the run is reported.
    pub fn message(&self, elapsed: &str) -> (r: String)
        ensures
            r@ == report_of(self@, elapsed@),
    {
        if self.definitions_considered == 0 {
            String::from_str("No recurring transactions were due. Execution finished.")
        } else {
            let booked = decimal(self.processed_occurrences as u128);
            let considered = decimal(self.definitions_considered as u128);
            let mut text = String::from_str("Execution finished in ");
            text.append(elapsed);
            text.append(". Processed ");
            text.append(booked.as_str());
            text.append(" transaction occurrence(s) from ");
            text.append(considered.as_str());
            text.append(" definition(s).");
            text
        }
    }
}

} // verus!

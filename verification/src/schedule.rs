//! The schedule model: recurring obligations, the ledger entries they
//! produce, and the mathematical view of each.

use crate::calendar::{formatted, Date, Ymd};
use crate::text::same_text;
use vstd::prelude::*;

verus! {

/// Where an obligation stands in its life. `Completed` is final.
#[derive(Clone, Copy, Debug, PartialEq, Eq, Structural)]
pub enum Status {
    Active,
    Completed,
}

impl Status {
    /// The word under which the status is stored.
    pub open spec fn word(self) -> Seq<char> {
        match self {
            Status::Active => "active"@,
            Status::Completed => "completed"@,
        }
    }

    /// The word under which the status is stored.
    pub fn as_text(&self) -> (r: &'static str)
        ensures
            r@ == self.word(),
    {
        match self {
            Status::Active => "active",
            Status::Completed => "completed",
        }
    }

    /// The status that a stored word names, if it names one.
    pub fn from_text(text: &str) -> (r: Option<Status>)
        ensures
            match r {
                Some(status) => text@ == status.word(),
                None => text@ != Status::Active.word() && text@ != Status::Completed.word(),
            },
    {
        if same_text(text, "active") {
            Some(Status::Active)
        } else if same_text(text, "completed") {
            Some(Status::Completed)
        } else {
            None
        }
    }
}

/// Why a run, or the work on one obligation, did not go through.
#[derive(Clone, Copy, Debug, PartialEq, Eq, Structural)]
pub enum EngineError {
    /// The due obligations could not be read: nothing was processed.
    SelectionFailure,
    /// The obligation's cadence is not one the engine can advance.
    UnsupportedFrequency,
    /// The next date, or the next execution count, cannot be represented.
    DateArithmeticFailure,
    /// The store refused to open the unit of work, an insert or the advance.
    StorageWriteFailure,
    /// The store refused to commit the unit of work.
    CommitFailure,
}

impl EngineError {
    /// The failure in words, for a log.
    pub open spec fn words(self) -> Seq<char> {
        match self {
            EngineError::SelectionFailure => "the due obligations could not be read"@,
            EngineError::UnsupportedFrequency => "the frequency is not supported"@,
            EngineError::DateArithmeticFailure => "the next due date cannot be computed"@,
            EngineError::StorageWriteFailure => "a write was refused"@,
            EngineError::CommitFailure => "the commit was refused"@,
        }
    }

    /// The failure in words, for a log.
    pub fn describe(&self) -> (r: &'static str)
        ensures
            r@ == self.words(),
    {
        match self {
            EngineError::SelectionFailure => "the due obligations could not be read",
            EngineError::UnsupportedFrequency => "the frequency is not supported",
            EngineError::DateArithmeticFailure => "the next due date cannot be computed",
            EngineError::StorageWriteFailure => "a write was refused",
            EngineError::CommitFailure => "the commit was refused",
        }
    }
}

/// An amount of money as the ledger stores it: the bit pattern of a
/// double-precision number. The engine copies amounts and never computes
/// with them.
#[derive(Clone, Copy, Debug, PartialEq, Eq, Structural)]
pub struct Amount {
    pub bits: u64,
}

/// What an obligation hands on, unchanged, to every entry it produces.
#[derive(Debug)]
pub struct Payload {
    pub user_id: Option<String>,
    pub amount: Amount,
    pub currency: String,
    pub description: Option<String>,
    pub type_str: String,
    pub category: Option<String>,
    pub is_chomesh: Option<bool>,
    pub recipient: Option<String>,
}

/// The mathematical view of a [`Payload`].
pub struct PayloadView {
    pub user_id: Option<Seq<char>>,
    pub amount: Amount,
    pub currency: Seq<char>,
    pub description: Option<Seq<char>>,
    pub type_str: Seq<char>,
    pub category: Option<Seq<char>>,
    pub is_chomesh: Option<bool>,
    pub recipient: Option<Seq<char>>,
}

/// The view of a text that may be absent.
pub open spec fn text_view(text: Option<String>) -> Option<Seq<char>> {
    match text {
        Some(t) => Some(t@),
        None => None,
    }
}

/// A copy of a text that may be absent.
pub fn copy_text(text: &Option<String>) -> (r: Option<String>)
    ensures
        r == *text,
{
    match text {
        Some(t) => Some(t.clone()),
        None => None,
    }
}

impl View for Payload {
    type V = PayloadView;

    open spec fn view(&self) -> PayloadView {
        PayloadView {
            user_id: text_view(self.user_id),
            amount: self.amount,
            currency: self.currency@,
            description: text_view(self.description),
            type_str: self.type_str@,
            category: text_view(self.category),
            is_chomesh: self.is_chomesh,
            recipient: text_view(self.recipient),
        }
    }
}

impl Payload {
    /// The payload as it stands now, for an entry to keep.
    pub fn snapshot(&self) -> (r: Payload)
        ensures
            r == *self,
    {
        Payload {
            user_id: copy_text(&self.user_id),
            amount: self.amount,
            currency: self.currency.clone(),
            description: copy_text(&self.description),
            type_str: self.type_str.clone(),
            category: copy_text(&self.category),
            is_chomesh: self.is_chomesh,
            recipient: copy_text(&self.recipient),
        }
    }
}

/// A recurring obligation: a schedule and the payload of its entries.
#[derive(Debug)]
pub struct RecurringTransaction {
    pub id: String,
    pub status: Status,
    pub start_date: Date,
    /// The day of the next occurrence that has no entry yet.
    pub next_due_date: Date,
    pub frequency: String,
    pub day_of_month: i32,
    /// How many occurrences the obligation may have in all, if it is capped.
    pub total_occurrences: Option<i32>,
    /// How many occurrences have an entry already.
    pub execution_count: i32,
    pub payload: Payload,
    pub created_at: String,
    pub updated_at: String,
}

/// The mathematical view of a [`RecurringTransaction`]: everything but the
/// two audit stamps.
pub struct Obligation {
    pub id: Seq<char>,
    pub status: Status,
    pub start_date: Ymd,
    pub next_due_date: Ymd,
    pub frequency: Seq<char>,
    pub day_of_month: int,
    pub total_occurrences: Option<int>,
    pub execution_count: int,
    pub payload: PayloadView,
}

/// The view of a cap that may be absent.
pub open spec fn cap_view(cap: Option<i32>) -> Option<int> {
    match cap {
        Some(n) => Some(n as int),
        None => None,
    }
}

impl View for RecurringTransaction {
    type V = Obligation;

    open spec fn view(&self) -> Obligation {
        Obligation {
            id: self.id@,
            status: self.status,
            start_date: self.start_date@,
            next_due_date: self.next_due_date@,
            frequency: self.frequency@,
            day_of_month: self.day_of_month as int,
            total_occurrences: cap_view(self.total_occurrences),
            execution_count: self.execution_count as int,
            payload: self.payload@,
        }
    }
}

/// The obligations that a sequence of records stands for.
pub open spec fn obligations(records: Seq<RecurringTransaction>) -> Seq<Obligation> {
    Seq::new(records.len(), |i: int| records[i]@)
}

/// The entries that a sequence of records stands for.
pub open spec fn entries(records: Seq<Transaction>) -> Seq<LedgerEntry> {
    Seq::new(records.len(), |i: int| records[i]@)
}

impl Obligation {
    /// The cadence is the monthly one, the only one the engine advances.
    pub open spec fn is_monthly(self) -> bool {
        self.frequency == "monthly"@
    }

    /// The obligation takes part in a run on `today`.
    pub open spec fn is_due(self, today: Ymd) -> bool {
        self.status == Status::Active && self.next_due_date.on_or_before(today)
    }

    /// The count of occurrences with an entry stays within the cap.
    pub open spec fn within_cap(self) -> bool {
        self.total_occurrences matches Some(cap) ==> self.execution_count <= cap
    }
}

impl RecurringTransaction {
    /// Whether the cadence is the monthly one.
    pub fn is_monthly(&self) -> (r: bool)
        ensures
            r == self@.is_monthly(),
    {
        same_text(self.frequency.as_str(), "monthly")
    }

    /// Whether the obligation takes part in a run on `today`.
    pub fn is_due(&self, today: &Date) -> (r: bool)
        ensures
            r == self@.is_due(today@),
    {
        self.status == Status::Active && self.next_due_date.on_or_before(today)
    }

    /// A copy of the obligation as it stands now.
    pub fn snapshot(&self) -> (r: RecurringTransaction)
        ensures
            r == *self,
    {
        RecurringTransaction {
            id: self.id.clone(),
            status: self.status,
            start_date: self.start_date,
            next_due_date: self.next_due_date,
            frequency: self.frequency.clone(),
            day_of_month: self.day_of_month,
            total_occurrences: self.total_occurrences,
            execution_count: self.execution_count,
            payload: self.payload.snapshot(),
            created_at: self.created_at.clone(),
            updated_at: self.updated_at.clone(),
        }
    }
}

/// The schedule of an obligation as it is shown beside one of its entries:
/// the status and the days in words as they are stored.
#[derive(Debug)]
pub struct RecurringInfo {
    pub status: String,
    pub frequency: String,
    pub execution_count: i32,
    pub total_occurrences: Option<i32>,
    pub day_of_month: i32,
    pub start_date: String,
    pub next_due_date: String,
}

impl RecurringTransaction {
    /// The schedule of the obligation, for showing.
    pub fn info(&self) -> (r: RecurringInfo)
        ensures
            r.status@ == self.status.word(),
            r.frequency == self.frequency,
            r.execution_count == self.execution_count,
            r.total_occurrences == self.total_occurrences,
            r.day_of_month == self.day_of_month,
            r.start_date@ == formatted(
                "%Y-%m-%d"@,
                self.start_date@.year,
                self.start_date@.month,
                self.start_date@.day,
            ),
            r.next_due_date@ == formatted(
                "%Y-%m-%d"@,
                self.next_due_date@.year,
                self.next_due_date@.month,
                self.next_due_date@.day,
            ),
    {
        RecurringInfo {
            status: self.status.as_text().to_owned(),
            frequency: self.frequency.clone(),
            execution_count: self.execution_count,
            total_occurrences: self.total_occurrences,
            day_of_month: self.day_of_month,
            start_date: self.start_date.to_text(),
            next_due_date: self.next_due_date.to_text(),
        }
    }
}

/// A ledger entry. Those that the engine writes name the obligation they
/// come from and carry its payload as it was on the day of writing.
#[derive(Debug)]
pub struct Transaction {
    pub id: String,
    /// The day the entry is booked on: for an occurrence, the occurrence's
    /// own day, not the day of the run.
    pub date: Date,
    pub source_recurring_id: Option<String>,
    pub payload: Payload,
    pub created_at: Option<String>,
    pub updated_at: Option<String>,
}

/// The mathematical view of a [`Transaction`]: everything but its identity
/// and the two audit stamps.
pub struct LedgerEntry {
    pub date: Ymd,
    pub source_recurring_id: Option<Seq<char>>,
    pub payload: PayloadView,
}

impl View for Transaction {
    type V = LedgerEntry;

    open spec fn view(&self) -> LedgerEntry {
        LedgerEntry {
            date: self.date@,
            source_recurring_id: text_view(self.source_recurring_id),
            payload: self.payload@,
        }
    }
}

} // verus!

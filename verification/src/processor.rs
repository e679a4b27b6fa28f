//! The catch-up processor: the order in which the store is asked to open a
//! unit of work for each due obligation, to insert its entries, to advance
//! its schedule, and to commit or roll back.
//!
//! The processor does none of this itself. It names the next request, is told
//! whether the store carried the request out, and names the next one. A
//! failure on one obligation ends the work on that obligation alone.

use crate::calendar::{Date, Ymd};
use crate::generator::{generate, Generation, Plan};
use crate::schedule::{
    obligations, EngineError, LedgerEntry, Obligation, RecurringTransaction, Status, Transaction,
};
use vstd::prelude::*;

verus! {

/// How the store answered the last request.
#[derive(Clone, Copy, Debug, PartialEq, Eq, Structural)]
pub enum Event {
    Done,
    Failed,
}

/// How the work on one due obligation ended.
#[derive(Clone, Copy, Debug, PartialEq, Eq, Structural)]
pub enum Outcome {
    /// The unit of work was committed, with this many entries.
    Processed(usize),
    /// Nothing of the unit of work was kept.
    Failed(EngineError),
}

/// The new schedule state of one obligation.
#[derive(Debug)]
pub struct ScheduleUpdate {
    pub id: String,
    pub next_due_date: Date,
    pub execution_count: i32,
    pub status: Status,
    pub updated_at: String,
}

/// The mathematical view of a [`ScheduleUpdate`]: everything but the audit
/// stamp.
pub struct Advancement {
    pub id: Seq<char>,
    pub next_due_date: Ymd,
    pub execution_count: int,
    pub status: Status,
}

impl View for ScheduleUpdate {
    type V = Advancement;

    open spec fn view(&self) -> Advancement {
        Advancement {
            id: self.id@,
            next_due_date: self.next_due_date@,
            execution_count: self.execution_count as int,
            status: self.status,
        }
    }
}

/// What a run did.
#[derive(Debug)]
pub struct Summary {
    /// Entries in the units of work that were committed; the largest number
    /// the type holds where there were more.
    pub processed_occurrences: usize,
    /// Due obligations that the run took up.
    pub definitions_considered: usize,
    /// How the work on each of them ended, in the order of the due set.
    pub outcomes: Vec<Outcome>,
}

/// The mathematical view of a [`Summary`].
pub struct Tally {
    pub processed_occurrences: nat,
    pub definitions_considered: nat,
    pub outcomes: Seq<Outcome>,
}

impl View for Summary {
    type V = Tally;

    open spec fn view(&self) -> Tally {
        Tally {
            processed_occurrences: self.processed_occurrences as nat,
            definitions_considered: self.definitions_considered as nat,
            outcomes: self.outcomes@,
        }
    }
}

/// The next request to the store.
#[derive(Debug)]
pub enum Action {
    /// Open a unit of work.
    Begin,
    /// Insert this entry within the open unit of work.
    Insert(Transaction),
    /// Write this schedule state within the open unit of work.
    Advance(ScheduleUpdate),
    /// Commit the open unit of work.
    Commit,
    /// Roll the open unit of work back.
    Rollback,
    /// The run is over.
    Finish(Summary),
}

/// The mathematical view of an [`Action`].
pub enum Request {
    Begin,
    Insert(LedgerEntry),
    Advance(Advancement),
    Commit,
    Rollback,
    Finish(Tally),
}

impl View for Action {
    type V = Request;

    open spec fn view(&self) -> Request {
        match self {
            Action::Begin => Request::Begin,
            Action::Insert(entry) => Request::Insert(entry@),
            Action::Advance(update) => Request::Advance(update@),
            Action::Commit => Request::Commit,
            Action::Rollback => Request::Rollback,
            Action::Finish(summary) => Request::Finish(summary@),
        }
    }
}

/// Which answer the processor is waiting for.
#[derive(Clone, Copy, Debug, PartialEq, Eq, Structural)]
pub enum Stage {
    /// A unit of work is being opened.
    Opening,
    /// The entry of the occurrence with this number is being inserted.
    Inserting { written: usize },
    /// The schedule state is being written.
    Advancing,
    /// The unit of work is being committed.
    Committing,
    /// The unit of work is being rolled back, for this reason.
    Undoing { failure: EngineError },
    /// Every due obligation has been taken up.
    Finished,
}

/// The entry that an obligation books for one of its occurrences.
pub open spec fn entry_of(obligation: Obligation, date: Ymd) -> LedgerEntry {
    LedgerEntry { date, source_recurring_id: Some(obligation.id), payload: obligation.payload }
}

/// The schedule state that an obligation is given once a plan is booked.
pub open spec fn update_of(obligation: Obligation, plan: Plan) -> Advancement {
    Advancement {
        id: obligation.id,
        next_due_date: plan.next_due_date,
        execution_count: plan.execution_count,
        status: plan.status,
    }
}

/// The entries in the committed units of work among `outcomes`.
pub open spec fn booked(outcomes: Seq<Outcome>) -> nat
    decreases outcomes.len(),
{
    if outcomes.len() == 0 {
        0
    } else {
        booked(outcomes.drop_last()) + match outcomes.last() {
            Outcome::Processed(n) => n as nat,
            Outcome::Failed(_) => 0,
        }
    }
}

/// What a run over `considered` obligations has done where their units of
/// work ended as `outcomes` says.
pub open spec fn tally_of(considered: nat, outcomes: Seq<Outcome>) -> Tally {
    Tally {
        processed_occurrences: if booked(outcomes) > usize::MAX {
            usize::MAX as nat
        } else {
            booked(outcomes)
        },
        definitions_considered: considered,
        outcomes,
    }
}

/// The mathematical view of a [`Processor`].
pub struct Run {
    pub today: Ymd,
    /// The due obligations, in the order in which they are taken up.
    pub due: Seq<Obligation>,
    /// How many of them are done with.
    pub index: nat,
    pub stage: Stage,
    /// How the work on those ended.
    pub outcomes: Seq<Outcome>,
}

impl Run {
    /// The obligation whose unit of work is open.
    pub open spec fn current(self) -> Obligation {
        self.due[self.index as int]
    }

    /// The plan of the obligation whose unit of work is open.
    pub open spec fn plan(self) -> Plan {
        self.current().plan(self.today)->Ok_0
    }

    /// The run is in order: its days are days of the calendar, one outcome
    /// is recorded for each obligation that is done with, the run is
    /// finished exactly when all are done with, and while entries or the
    /// schedule state are written or committed, the plan of the open unit of
    /// work went through and the entry being inserted is one of its own.
    pub open spec fn wf(self) -> bool {
        &&& self.today.valid()
        &&& forall|i: int| 0 <= i < self.due.len() ==> (#[trigger] self.due[i]).next_due_date.valid()
        &&& self.outcomes.len() == self.index
        &&& self.index <= self.due.len()
        &&& self.stage == Stage::Finished <==> self.index == self.due.len()
        &&& match self.stage {
            Stage::Inserting { written } => self.current().plan(self.today) is Ok && written
                < self.plan().dates.len() <= usize::MAX,
            Stage::Advancing | Stage::Committing => self.current().plan(self.today) is Ok
                && self.plan().dates.len() <= usize::MAX,
            _ => true,
        }
    }

    /// What the run has done by its end.
    pub open spec fn tally(self) -> Tally {
        tally_of(self.due.len(), self.outcomes)
    }

    /// The obligations that are not yet done with. A run comes nearer to
    /// its end with every answer: first by this number, then by the place of
    /// its stage, then by the entries left to insert.
    pub open spec fn units_left(self) -> nat {
        (self.due.len() - self.index) as nat
    }

    /// The place of the stage within a unit of work, counted down to its end.
    pub open spec fn stage_rank(self) -> nat {
        match self.stage {
            Stage::Opening => 5,
            Stage::Inserting { .. } => 4,
            Stage::Advancing => 3,
            Stage::Committing => 2,
            Stage::Undoing { .. } => 1,
            Stage::Finished => 0,
        }
    }

    /// The entries of the open unit of work that are not yet inserted.
    pub open spec fn entries_left(self) -> nat {
        match self.stage {
            Stage::Inserting { written } => (self.plan().dates.len() - written) as nat,
            _ => 0,
        }
    }

    /// The request that the run is waiting to have answered.
    pub open spec fn pending(self) -> Request {
        match self.stage {
            Stage::Opening => Request::Begin,
            Stage::Inserting { written } => Request::Insert(
                entry_of(self.current(), self.plan().dates[written as int]),
            ),
            Stage::Advancing => Request::Advance(update_of(self.current(), self.plan())),
            Stage::Committing => Request::Commit,
            Stage::Undoing { .. } => Request::Rollback,
            Stage::Finished => Request::Finish(self.tally()),
        }
    }

    /// A run on `today` over the obligations in `due`, before its first
    /// request is answered.
    pub open spec fn begin(today: Ymd, due: Seq<Obligation>) -> Run {
        Run {
            today,
            due,
            index: 0,
            stage: if due.len() > 0 {
                Stage::Opening
            } else {
                Stage::Finished
            },
            outcomes: Seq::empty(),
        }
    }

    /// The run at the door of the obligation with number `index`: about to
    /// open its unit of work, or finished where there is none.
    pub open spec fn at(self, index: nat, outcomes: Seq<Outcome>) -> Run {
        Run {
            index,
            outcomes,
            stage: if index < self.due.len() {
                Stage::Opening
            } else {
                Stage::Finished
            },
            ..self
        }
    }

    /// The run with the open unit of work closed under `outcome`, at the
    /// door of the next obligation.
    pub open spec fn closed(self, outcome: Outcome) -> Run {
        self.at(self.index + 1, self.outcomes.push(outcome))
    }

    /// The run about to write what is left of the plan once `written`
    /// entries are in: the next entry, or the schedule state after the last.
    pub open spec fn writing(self, written: nat) -> Run {
        Run {
            stage: if written < self.plan().dates.len() {
                Stage::Inserting { written: written as usize }
            } else {
                Stage::Advancing
            },
            ..self
        }
    }

    /// The run after the store's answer to the pending request.
    ///
    /// A unit of work that could not be opened is closed as failed. Once it
    /// is open, a plan that fails, or a write that the store refuses, leads
    /// to a rollback, and the unit is closed as failed when the rollback has
    /// been answered, whatever the answer. The entries are inserted in the
    /// order of their days, the schedule state after the last of them, and
    /// the commit after that; a refused commit closes the unit as failed.
    pub open spec fn next(self, event: Event) -> Run {
        match self.stage {
            Stage::Opening => match event {
                Event::Done => match self.current().plan(self.today) {
                    Ok(_) => self.writing(0),
                    Err(e) => Run { stage: Stage::Undoing { failure: e }, ..self },
                },
                Event::Failed => self.closed(Outcome::Failed(EngineError::StorageWriteFailure)),
            },
            Stage::Inserting { written } => match event {
                Event::Done => self.writing((written + 1) as nat),
                Event::Failed => Run {
                    stage: Stage::Undoing { failure: EngineError::StorageWriteFailure },
                    ..self
                },
            },
            Stage::Advancing => match event {
                Event::Done => Run { stage: Stage::Committing, ..self },
                Event::Failed => Run {
                    stage: Stage::Undoing { failure: EngineError::StorageWriteFailure },
                    ..self
                },
            },
            Stage::Committing => match event {
                Event::Done => self.closed(Outcome::Processed(self.plan().dates.len() as usize)),
                Event::Failed => self.closed(Outcome::Failed(EngineError::CommitFailure)),
            },
            Stage::Undoing { failure } => self.closed(Outcome::Failed(failure)),
            Stage::Finished => self,
        }
    }
}

/// `uuid::Uuid::new_v4`, written in its hyphenated form: a random
/// identifier. Nothing is claimed of it.
#[verifier::external_body]
fn fresh_id() -> String {
    uuid::Uuid::new_v4().to_string()
}

/// `chrono::Local::now`, written by `chrono::DateTime::to_rfc3339`: the time
/// of the machine's clock. Nothing is claimed of it.
#[verifier::external_body]
fn now_rfc3339() -> String {
    chrono::Local::now().to_rfc3339()
}

/// A copy of a list of outcomes.
fn copy_outcomes(outcomes: &Vec<Outcome>) -> (r: Vec<Outcome>)
    ensures
        r@ == outcomes@,
{
    let mut copy: Vec<Outcome> = Vec::new();
    let mut i: usize = 0;
    while i < outcomes.len()
        invariant
            i <= outcomes.len(),
            copy@ == outcomes@.take(i as int),
        decreases outcomes.len() - i,
    {
        copy.push(outcomes[i]);
        proof {
            assert(outcomes@.take(i as int).push(outcomes@[i as int]) =~= outcomes@.take(i + 1));
        }
        i = i + 1;
    }
    proof {
        assert(outcomes@.take(outcomes.len() as int) =~= outcomes@);
    }
    copy
}

/// The catch-up processor of one run.
pub struct Processor {
    today: Date,
    due: Vec<RecurringTransaction>,
    index: usize,
    stage: Stage,
    /// The plan of the open unit of work, once it is known.
    generation: Option<Generation>,
    outcomes: Vec<Outcome>,
    processed: usize,
}

impl View for Processor {
    type V = Run;

    closed spec fn view(&self) -> Run {
        Run {
            today: self.today@,
            due: obligations(self.due@),
            index: self.index as nat,
            stage: self.stage,
            outcomes: self.outcomes@,
        }
    }
}

impl Processor {
    #[verifier::type_invariant]
    spec fn well_formed(self) -> bool {
        Self::fit(
            self.today,
            self.due@,
            self.index,
            self.stage,
            self.generation,
            self.outcomes@,
            self.processed,
        )
    }

    /// The parts of a processor fit together.
    spec fn fit(
        today: Date,
        due: Seq<RecurringTransaction>,
        index: usize,
        stage: Stage,
        generation: Option<Generation>,
        outcomes: Seq<Outcome>,
        processed: usize,
    ) -> bool {
        let run = Run { today: today@, due: obligations(due), index: index as nat, stage, outcomes };
        &&& run.wf()
        &&& processed == run.tally().processed_occurrences
        &&& match stage {
            Stage::Inserting { .. } | Stage::Advancing | Stage::Committing => generation matches Some(
                g,
            ) && run.current().plan(run.today) == Ok::<Plan, EngineError>(g@),
            _ => true,
        }
    }

    /// A processor for a run on `today` over the obligations in `due`, and
    /// its first request. Where no day is given, the run is on the current
    /// day of the machine's clock.
    pub fn start(today: Option<Date>, due: Vec<RecurringTransaction>) -> (r: (Processor, Action))
        ensures
            today matches Some(day) ==> r.0@.today == day@,
            r.0@ == Run::begin(r.0@.today, obligations(due@)),
            r.0@.wf(),
            r.1@ == r.0@.pending(),
    {
        let today = match today {
            Some(day) => day,
            None => Date::today(),
        };
        let outcomes: Vec<Outcome> = Vec::new();
        proof {
            today.lemma_valid();
            assert forall|i: int| 0 <= i < due@.len() implies (#[trigger] obligations(
                due@,
            )[i]).next_due_date.valid() by {
                due@[i].next_due_date.lemma_valid();
            }
            reveal_with_fuel(booked, 1);
        }
        if due.len() > 0 {
            (
                Processor {
                    today,
                    due,
                    index: 0,
                    stage: Stage::Opening,
                    generation: None,
                    outcomes,
                    processed: 0,
                },
                Action::Begin,
            )
        } else {
            let summary = Summary {
                processed_occurrences: 0,
                definitions_considered: 0,
                outcomes: Vec::new(),
            };
            (
                Processor {
                    today,
                    due,
                    index: 0,
                    stage: Stage::Finished,
                    generation: None,
                    outcomes,
                    processed: 0,
                },
                Action::Finish(summary),
            )
        }
    }

    /// The number, counted from 0, of the due obligation whose unit of work
    /// is open; the size of the due set once the run is over.
    pub fn unit(&self) -> (i: usize)
        ensures
            i == self@.index,
    {
        self.index
    }

    /// The answer to the pending request, and the next request.
    ///
    /// An entry that is asked for carries a fresh random identifier, and
    /// what is written carries the time of the machine's clock.
    pub fn step(self, event: Event) -> (r: (Processor, Action))
        ensures
            r.0@ == self@.next(event),
            r.0@.wf(),
            r.1@ == r.0@.pending(),
    {
        let writes = match (self.stage, event) {
            (Stage::Opening, Event::Done) | (Stage::Inserting { .. }, Event::Done) => true,
            _ => false,
        };
        if writes {
            self.step_with(event, fresh_id(), now_rfc3339())
        } else {
            self.step_with(event, String::new(), String::new())
        }
    }

    /// The answer to the pending request, and the next request: an entry
    /// that is asked for is given the identifier `id`, and what is written
    /// is stamped with `now`.
    pub fn step_with(self, event: Event, id: String, now: String) -> (r: (Processor, Action))
        ensures
            r.0@ == self@.next(event),
            r.0@.wf(),
            r.1@ == r.0@.pending(),
            r.1 matches Action::Insert(entry) ==> entry.id == id && entry.created_at == Some(now)
                && entry.updated_at == Some(now),
            r.1 matches Action::Advance(update) ==> update.updated_at == now,
    {
        proof {
            use_type_invariant(&self);
        }
        let Processor { today, due, index, stage, generation, outcomes, processed } = self;
        match stage {
            Stage::Opening => match event {
                Event::Done => match generate(&due[index], &today) {
                    Ok(g) => Self::write(today, due, index, g, 0, outcomes, processed, id, now),
                    Err(e) => (
                        Processor {
                            today,
                            due,
                            index,
                            stage: Stage::Undoing { failure: e },
                            generation: None,
                            outcomes,
                            processed,
                        },
                        Action::Rollback,
                    ),
                },
                Event::Failed => Self::close(
                    today,
                    due,
                    index,
                    outcomes,
                    processed,
                    Outcome::Failed(EngineError::StorageWriteFailure),
                ),
            },
            Stage::Inserting { written } => match event {
                Event::Done => match generation {
                    Some(g) => {
                        assert(written < g.occurrences.len()) by {
                            assert(g@.dates.len() == g.occurrences@.len());
                        }
                        Self::write(
                        today,
                        due,
                        index,
                        g,
                        written + 1,
                        outcomes,
                        processed,
                        id,
                        now,
                    )
                    },
                    None => Self::undo(today, due, index, outcomes, processed),
                },
                Event::Failed => Self::undo(today, due, index, outcomes, processed),
            },
            Stage::Advancing => match event {
                Event::Done => (
                    Processor {
                        today,
                        due,
                        index,
                        stage: Stage::Committing,
                        generation,
                        outcomes,
                        processed,
                    },
                    Action::Commit,
                ),
                Event::Failed => Self::undo(today, due, index, outcomes, processed),
            },
            Stage::Committing => {
                let outcome = match (event, &generation) {
                    (Event::Done, Some(g)) => Outcome::Processed(g.occurrences.len()),
                    _ => Outcome::Failed(EngineError::CommitFailure),
                };
                Self::close(today, due, index, outcomes, processed, outcome)
            },
            Stage::Undoing { failure } => Self::close(
                today,
                due,
                index,
                outcomes,
                processed,
                Outcome::Failed(failure),
            ),
            Stage::Finished => {
                let summary = Summary {
                    processed_occurrences: processed,
                    definitions_considered: due.len(),
                    outcomes: copy_outcomes(&outcomes),
                };
                (
                    Processor { today, due, index, stage, generation, outcomes, processed },
                    Action::Finish(summary),
                )
            },
        }
    }

    /// The processor and the request once a write of the open unit of work
    /// was refused.
    fn undo(
        today: Date,
        due: Vec<RecurringTransaction>,
        index: usize,
        outcomes: Vec<Outcome>,
        processed: usize,
    ) -> (r: (Processor, Action))
        requires
            Self::fit(today, due@, index, Stage::Opening, None, outcomes@, processed),
        ensures
            r.0@ == (Run {
                today: today@,
                due: obligations(due@),
                index: index as nat,
                stage: Stage::Undoing { failure: EngineError::StorageWriteFailure },
                outcomes: outcomes@,
            }),
            r.0@.wf(),
            r.1@ == Request::Rollback,
    {
        (
            Processor {
                today,
                due,
                index,
                stage: Stage::Undoing { failure: EngineError::StorageWriteFailure },
                generation: None,
                outcomes,
                processed,
            },
            Action::Rollback,
        )
    }

    /// The processor and the request once the open unit of work has ended
    /// under `outcome`.
    fn close(
        today: Date,
        due: Vec<RecurringTransaction>,
        index: usize,
        outcomes: Vec<Outcome>,
        processed: usize,
        outcome: Outcome,
    ) -> (r: (Processor, Action))
        requires
            Self::fit(today, due@, index, Stage::Opening, None, outcomes@, processed),
        ensures
            r.0@ == (Run {
                today: today@,
                due: obligations(due@),
                index: index as nat,
                stage: Stage::Opening,
                outcomes: outcomes@,
            }).closed(outcome),
            r.0@.wf(),
            r.1@ == r.0@.pending(),
    {
        let mut outcomes = outcomes;
        proof {
            assert(outcomes@.push(outcome).drop_last() =~= outcomes@);
        }
        outcomes.push(outcome);
        let processed = match outcome {
            Outcome::Processed(n) => if n > usize::MAX - processed {
                usize::MAX
            } else {
                processed + n
            },
            Outcome::Failed(_) => processed,
        };
        assert(index < due.len());
        let index = index + 1;
        if index < due.len() {
            (
                Processor {
                    today,
                    due,
                    index,
                    stage: Stage::Opening,
                    generation: None,
                    outcomes,
                    processed,
                },
                Action::Begin,
            )
        } else {
            let summary = Summary {
                processed_occurrences: processed,
                definitions_considered: due.len(),
                outcomes: copy_outcomes(&outcomes),
            };
            (
                Processor {
                    today,
                    due,
                    index,
                    stage: Stage::Finished,
                    generation: None,
                    outcomes,
                    processed,
                },
                Action::Finish(summary),
            )
        }
    }

    /// The processor and the request once `written` entries of the plan are
    /// in.
    fn write(
        today: Date,
        due: Vec<RecurringTransaction>,
        index: usize,
        g: Generation,
        written: usize,
        outcomes: Vec<Outcome>,
        processed: usize,
        id: String,
        now: String,
    ) -> (r: (Processor, Action))
        requires
            Self::fit(today, due@, index, Stage::Opening, None, outcomes@, processed),
            obligations(due@)[index as int].plan(today@) == Ok::<Plan, EngineError>(g@),
            written <= g.occurrences@.len(),
        ensures
            r.0@ == (Run {
                today: today@,
                due: obligations(due@),
                index: index as nat,
                stage: Stage::Advancing,
                outcomes: outcomes@,
            }).writing(written as nat),
            r.0@.wf(),
            r.1@ == r.0@.pending(),
            r.1 matches Action::Insert(entry) ==> entry.id == id && entry.created_at == Some(now)
                && entry.updated_at == Some(now),
            r.1 matches Action::Advance(update) ==> update.updated_at == now,
    {
        if written < g.occurrences.len() {
            let entry = Transaction {
                id,
                date: g.occurrences[written],
                source_recurring_id: Some(due[index].id.clone()),
                payload: due[index].payload.snapshot(),
                created_at: Some(now.clone()),
                updated_at: Some(now),
            };
            (
                Processor {
                    today,
                    due,
                    index,
                    stage: Stage::Inserting { written },
                    generation: Some(g),
                    outcomes,
                    processed,
                },
                Action::Insert(entry),
            )
        } else {
            let update = ScheduleUpdate {
                id: due[index].id.clone(),
                next_due_date: g.next_due_date,
                execution_count: g.execution_count,
                status: g.status,
                updated_at: now,
            };
            (
                Processor {
                    today,
                    due,
                    index,
                    stage: Stage::Advancing,
                    generation: Some(g),
                    outcomes,
                    processed,
                },
                Action::Advance(update),
            )
        }
    }
}

/// A refused write ends the unit of work: where the store refuses an insert
/// or the advance, the next request is the rollback, and once the rollback
/// is answered, whatever the answer, the unit is closed as failed, with
/// nothing of it counted.
pub proof fn law_refused_write_rolls_back(run: Run, answer: Event)
    requires
        run.wf(),
        run.stage is Inserting || run.stage is Advancing,
    ensures
        run.next(Event::Failed).pending() == Request::Rollback,
        run.next(Event::Failed).next(answer) == run.closed(
            Outcome::Failed(EngineError::StorageWriteFailure),
        ),
        booked(run.next(Event::Failed).next(answer).outcomes) == booked(run.outcomes),
{
    let after = run.next(Event::Failed).next(answer);
    assert(after.outcomes.drop_last() =~= run.outcomes);
}

/// A failure stays with its obligation: however a unit of work ends, the
/// next request opens the unit of the next due obligation, or ends the run
/// where there is none.
pub proof fn law_next_unit_begins(run: Run, outcome: Outcome)
    requires
        run.wf(),
        run.stage != Stage::Finished,
    ensures
        run.closed(outcome).wf(),
        run.index + 1 < run.due.len() ==> run.closed(outcome).pending() == Request::Begin
            && run.closed(outcome).current() == run.due[run.index as int + 1],
        run.index + 1 == run.due.len() ==> run.closed(outcome).pending() is Finish,
{
}

/// A unit of work that was opened is closed by its commit or by its
/// rollback, and by nothing else: the run passes to the next obligation only
/// on the answer to a commit or to a rollback, or where the unit could not
/// be opened at all.
pub proof fn law_open_unit_is_closed(run: Run, answer: Event)
    requires
        run.wf(),
        run.next(answer).index != run.index,
    ensures
        run.next(answer).index == run.index + 1,
        run.pending() == Request::Commit || run.pending() == Request::Rollback || (run.pending()
            == Request::Begin && answer == Event::Failed),
{
}

/// A commit is asked for only once every entry of the plan and the new
/// schedule state are written: the commit follows an accepted advance, and
/// the advance follows the accepted insert of the last entry, or the opening
/// of the unit where the plan has no entry.
pub proof fn law_commit_follows_every_write(run: Run, answer: Event)
    requires
        run.wf(),
    ensures
        run.next(answer).stage == Stage::Committing && run.stage != Stage::Committing ==> run.stage
            == Stage::Advancing && answer == Event::Done,
        run.next(answer).stage == Stage::Advancing && run.stage != Stage::Advancing ==> answer
            == Event::Done && match run.stage {
            Stage::Opening => run.plan().dates.len() == 0,
            Stage::Inserting { written } => written + 1 == run.plan().dates.len(),
            _ => false,
        },
        run.next(answer).wf(),
{
    if run.stage == Stage::Opening && run.current().plan(run.today) is Ok && run.current().status
        == Status::Active {
        let obligation = run.current();
        crate::generator::lemma_plan_length(
            obligation.next_due_date,
            obligation.execution_count,
            obligation.total_occurrences,
            obligation.is_monthly(),
            run.today,
        );
    }
}

} // verus!

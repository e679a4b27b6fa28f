//! A book kept in memory: the obligations and the ledger, the set of due
//! obligations, and a whole run of the catch-up processor against the book,
//! with the store's refusals chosen by the caller.

use crate::calendar::{Date, Ymd};
use crate::generator::{advanced, Plan};
use crate::processor::{
    entry_of, tally_of, update_of, Action, Advancement, Event, Outcome, Processor, Run,
    ScheduleUpdate, Stage, Summary,
};
use crate::schedule::{
    entries, obligations, EngineError, LedgerEntry, Obligation, RecurringTransaction, Transaction,
};
use vstd::prelude::*;

verus! {

/// The obligations and the ledger entries that are kept.
#[derive(Debug)]
pub struct Book {
    pub obligations: Vec<RecurringTransaction>,
    pub ledger: Vec<Transaction>,
}

/// The mathematical view of a [`Book`].
pub struct Holdings {
    pub obligations: Seq<Obligation>,
    pub ledger: Seq<LedgerEntry>,
}

impl View for Book {
    type V = Holdings;

    open spec fn view(&self) -> Holdings {
        Holdings { obligations: obligations(self.obligations@), ledger: entries(self.ledger@) }
    }
}

/// A request within the unit of work of one obligation.
#[derive(Clone, Copy, Debug, PartialEq, Eq, Structural)]
pub enum Write {
    /// Opening the unit of work.
    Begin,
    /// Inserting the entry of the occurrence with this number, counted from 0.
    Insert(usize),
    /// Writing the new schedule state.
    Advance,
    /// Committing the unit of work.
    Commit,
}

/// A request that the store is to refuse: this write, in the unit of work of
/// the due obligation with this number, counted from 0 in the order of the
/// due set.
#[derive(Clone, Copy, Debug, PartialEq, Eq, Structural)]
pub struct Fault {
    pub unit: usize,
    pub write: Write,
}

/// The store refuses `write` in the unit of work with number `unit`.
pub open spec fn refused(faults: Seq<Fault>, unit: usize, write: Write) -> bool {
    faults.contains(Fault { unit, write })
}

/// The entries that an obligation books under a plan, earliest first.
pub open spec fn entries_of(obligation: Obligation, plan: Plan) -> Seq<LedgerEntry> {
    Seq::new(plan.dates.len(), |k: int| entry_of(obligation, plan.dates[k]))
}

/// How the unit of work of the due obligation with number `unit` ends.
///
/// It fails where the store refuses to open it, where the plan fails, where
/// the store refuses an insert or the advance, and where it refuses the
/// commit. Otherwise it is committed with every entry of the plan.
pub open spec fn unit_outcome(obligation: Obligation, today: Ymd, faults: Seq<Fault>, unit: usize)
    -> Outcome {
    if refused(faults, unit, Write::Begin) {
        Outcome::Failed(EngineError::StorageWriteFailure)
    } else {
        match obligation.plan(today) {
            Err(e) => Outcome::Failed(e),
            Ok(plan) => if (exists|k: usize|
                k < plan.dates.len() && #[trigger] refused(faults, unit, Write::Insert(k)))
                || refused(faults, unit, Write::Advance) {
                Outcome::Failed(EngineError::StorageWriteFailure)
            } else if refused(faults, unit, Write::Commit) {
                Outcome::Failed(EngineError::CommitFailure)
            } else {
                Outcome::Processed(plan.dates.len() as usize)
            },
        }
    }
}

impl Holdings {
    /// The obligations that take part in a run on `today`, in the order in
    /// which the book holds them.
    pub open spec fn due(self, today: Ymd) -> Seq<Obligation> {
        self.obligations.filter(|o: Obligation| o.is_due(today))
    }

    /// The book once a unit of work is committed: every obligation with the
    /// identifier of `update` has the schedule state of `update`, and
    /// `booked` stands at the end of the ledger.
    pub open spec fn commit(self, update: Advancement, booked: Seq<LedgerEntry>) -> Holdings {
        Holdings {
            obligations: Seq::new(
                self.obligations.len(),
                |p: int|
                    if self.obligations[p].id == update.id {
                        Obligation {
                            next_due_date: update.next_due_date,
                            execution_count: update.execution_count,
                            status: update.status,
                            ..self.obligations[p]
                        }
                    } else {
                        self.obligations[p]
                    },
            ),
            ledger: self.ledger + booked,
        }
    }

    /// The book once the units of work of the first obligations in `due`
    /// have ended as `outcomes` says, one after the other: a committed unit
    /// leaves its plan in the book, a failed one leaves nothing.
    pub open spec fn settled(self, due: Seq<Obligation>, today: Ymd, outcomes: Seq<Outcome>)
        -> Holdings
        decreases outcomes.len(),
    {
        if outcomes.len() == 0 {
            self
        } else {
            let before = self.settled(due, today, outcomes.drop_last());
            let obligation = due[outcomes.len() - 1];
            match outcomes.last() {
                Outcome::Processed(_) => {
                    let plan = obligation.plan(today)->Ok_0;
                    before.commit(update_of(obligation, plan), entries_of(obligation, plan))
                },
                Outcome::Failed(_) => before,
            }
        }
    }

    /// How the units of work of a run on `today` end, in the order of the
    /// due set.
    pub open spec fn outcomes(self, today: Ymd, faults: Seq<Fault>) -> Seq<Outcome> {
        Seq::new(
            self.due(today).len(),
            |i: int| unit_outcome(self.due(today)[i], today, faults, i as usize),
        )
    }

    /// The book after a run on `today` in which the store refuses the
    /// requests in `faults` and no others.
    pub open spec fn after_run(self, today: Ymd, faults: Seq<Fault>) -> Holdings {
        self.settled(self.due(today), today, self.outcomes(today, faults))
    }

    /// One of the units of work that `outcomes` reports as committed is
    /// that of an obligation with the identifier `id`.
    pub open spec fn touched(self, today: Ymd, outcomes: Seq<Outcome>, id: Seq<char>) -> bool {
        exists|i: int|
            0 <= i < outcomes.len() && #[trigger] outcomes[i] is Processed && self.due(today)[i].id
                == id
    }
}

/// Whether `faults` holds a refusal of `write` in the unit with number `unit`.
fn is_refused(faults: &Vec<Fault>, unit: usize, write: Write) -> (r: bool)
    ensures
        r == refused(faults@, unit, write),
{
    let mut i: usize = 0;
    while i < faults.len()
        invariant
            i <= faults.len(),
            forall|k: int| 0 <= k < i ==> faults@[k] != (Fault { unit, write }),
        decreases faults.len() - i,
    {
        if faults[i].unit == unit && faults[i].write == write {
            return true;
        }
        i = i + 1;
    }
    false
}

impl Book {
    /// The due-set selector: every obligation that is active and whose next
    /// due day is `today` or earlier, in the order in which the book holds
    /// them. The book is left as it is.
    pub fn due(&self, today: &Date) -> (r: Vec<RecurringTransaction>)
        ensures
            r@ == self.obligations@.filter(|t: RecurringTransaction| t@.is_due(today@)),
            obligations(r@) == self@.due(today@),
    {
        let mut selected: Vec<RecurringTransaction> = Vec::new();
        let mut i: usize = 0;
        let ghost by_record = |t: RecurringTransaction| t@.is_due(today@);
        let ghost by_view = |o: Obligation| o.is_due(today@);
        proof {
            reveal(Seq::filter);
            assert(self.obligations@.take(0) =~= Seq::<RecurringTransaction>::empty());
            assert(obligations(self.obligations@.take(0)) =~= Seq::<Obligation>::empty());
            assert(obligations(selected@) =~= Seq::<Obligation>::empty());
        }
        while i < self.obligations.len()
            invariant
                i <= self.obligations.len(),
                by_record == |t: RecurringTransaction| t@.is_due(today@),
                by_view == |o: Obligation| o.is_due(today@),
                selected@ == self.obligations@.take(i as int).filter(by_record),
                obligations(selected@) == obligations(self.obligations@.take(i as int)).filter(
                    by_view,
                ),
            decreases self.obligations.len() - i,
        {
            let ghost before = self.obligations@.take(i as int);
            let ghost upto = self.obligations@.take(i + 1);
            proof {
                reveal(Seq::filter);
                assert(upto.drop_last() =~= before);
                assert(obligations(upto).drop_last() =~= obligations(before));
                assert(obligations(upto).last() == self.obligations@[i as int]@);
            }
            if self.obligations[i].is_due(today) {
                let copy = self.obligations[i].snapshot();
                proof {
                    assert(obligations(selected@.push(copy)) =~= obligations(selected@).push(
                        copy@,
                    ));
                }
                selected.push(copy);
            }
            i = i + 1;
        }
        proof {
            assert(self.obligations@.take(self.obligations.len() as int) =~= self.obligations@);
        }
        selected
    }

    /// Commits a unit of work: writes the schedule state of `update` to
    /// every obligation that has its identifier, and moves the entries in
    /// `staged` to the end of the ledger.
    fn commit(&mut self, update: &ScheduleUpdate, staged: &mut Vec<Transaction>)
        ensures
            final(self)@ == old(self)@.commit(update@, entries(old(staged)@)),
            final(self).ledger@ == old(self).ledger@ + old(staged)@,
            final(self).obligations@.len() == old(self).obligations@.len(),
            forall|p: int|
                0 <= p < old(self).obligations@.len() && old(self).obligations@[p].id@
                    != update.id@ ==> final(self).obligations@[p] == old(self).obligations@[p],
            final(staged)@.len() == 0,
    {
        let ghost start = self.obligations@;
        let mut i: usize = 0;
        while i < self.obligations.len()
            invariant
                i <= self.obligations.len(),
                start == old(self).obligations@,
                self.obligations@.len() == start.len(),
                self.ledger == old(self).ledger,
                *staged == *old(staged),
                forall|p: int|
                    0 <= p < i ==> (#[trigger] self.obligations@[p])@ == old(self)@.commit(
                        update@,
                        entries(old(staged)@),
                    ).obligations[p],
                forall|p: int|
                    0 <= p < start.len() && (i <= p || start[p].id@ != update.id@)
                        ==> #[trigger] self.obligations@[p] == start[p],
            decreases self.obligations.len() - i,
        {
            if self.obligations[i].id == update.id {
                let mut record = self.obligations[i].snapshot();
                record.next_due_date = update.next_due_date;
                record.execution_count = update.execution_count;
                record.status = update.status;
                record.updated_at = update.updated_at.clone();
                self.obligations.set(i, record);
            }
            i = i + 1;
        }
        proof {
            assert(entries(self.ledger@ + staged@) =~= entries(self.ledger@) + entries(staged@));
            assert(obligations(self.obligations@) =~= old(self)@.commit(
                update@,
                entries(old(staged)@),
            ).obligations);
        }
        self.ledger.append(staged);
    }

    /// A whole run on `today` against the book, by the catch-up processor,
    /// with a store that refuses the requests in `faults` and no others.
    pub fn run(&mut self, today: &Date, faults: &Vec<Fault>) -> (summary: Summary)
        ensures
            final(self)@ == old(self)@.after_run(today@, faults@),
            summary@ == tally_of(
                old(self)@.due(today@).len(),
                old(self)@.outcomes(today@, faults@),
            ),
            final(self).obligations@.len() == old(self).obligations@.len(),
            forall|p: int|
                0 <= p < old(self).obligations@.len() && !old(self)@.touched(
                    today@,
                    old(self)@.outcomes(today@, faults@),
                    old(self).obligations@[p].id@,
                ) ==> #[trigger] final(self).obligations@[p] == old(self).obligations@[p],
            old(self).ledger@.len() <= final(self).ledger@.len(),
            final(self).ledger@.take(old(self).ledger@.len() as int) == old(self).ledger@,
    {
        let due = self.due(today);
        let ghost start = self@;
        let ghost due_set = start.due(today@);
        let ghost verdicts = start.outcomes(today@, faults@);
        let (mut machine, mut action) = Processor::start(Some(*today), due);
        let mut staged: Vec<Transaction> = Vec::new();
        let mut update: Option<ScheduleUpdate> = None;
        proof {
            assert(verdicts.take(0) =~= Seq::<Outcome>::empty());
            assert(self.ledger@.take(self.ledger@.len() as int) =~= self.ledger@);
        }
        loop
            invariant
                machine@.wf(),
                machine@.today == today@,
                machine@.due == due_set,
                action@ == machine@.pending(),
                start == old(self)@,
                due_set == start.due(today@),
                verdicts == start.outcomes(today@, faults@),
                machine@.outcomes == verdicts.take(machine@.index as int),
                self@ == start.settled(due_set, today@, machine@.outcomes),
                in_step(machine@, faults@, entries(staged@), update),
                self.obligations@.len() == old(self).obligations@.len(),
                forall|p: int|
                    0 <= p < old(self).obligations@.len() && !start.touched(
                        today@,
                        machine@.outcomes,
                        old(self).obligations@[p].id@,
                    ) ==> #[trigger] self.obligations@[p] == old(self).obligations@[p],
                old(self).ledger@.len() <= self.ledger@.len(),
                self.ledger@.take(old(self).ledger@.len() as int) == old(self).ledger@,
            decreases machine@.units_left(), machine@.stage_rank(), machine@.entries_left(),
        {
            let unit = machine.unit();
            let ghost run = machine@;
            let event = match action {
                Action::Finish(summary) => {
                    proof {
                        assert(verdicts.take(run.index as int) =~= verdicts);
                    }
                    return summary;
                },
                Action::Begin => {
                    staged = Vec::new();
                    update = None;
                    if is_refused(faults, unit, Write::Begin) {
                        Event::Failed
                    } else {
                        Event::Done
                    }
                },
                Action::Insert(entry) => {
                    if is_refused(faults, unit, Write::Insert(staged.len())) {
                        Event::Failed
                    } else {
                        proof {
                            assert(entries(staged@.push(entry)) =~= entries(staged@).push(entry@));
                            assert(entries_of(run.current(), run.plan()).take(staged@.len() as int + 1)
                                =~= entries_of(run.current(), run.plan()).take(
                                staged@.len() as int,
                            ).push(entry@));
                        }
                        staged.push(entry);
                        Event::Done
                    }
                },
                Action::Advance(next) => {
                    if is_refused(faults, unit, Write::Advance) {
                        Event::Failed
                    } else {
                        update = Some(next);
                        Event::Done
                    }
                },
                Action::Commit => {
                    if is_refused(faults, unit, Write::Commit) {
                        Event::Failed
                    } else {
                        let ghost kept = self.ledger@;
                        match &update {
                            Some(next) => {
                                self.commit(next, &mut staged);
                            },
                            None => {},
                        }
                        proof {
                            let grown = run.outcomes.push(
                                Outcome::Processed(run.plan().dates.len() as usize),
                            );
                            assert(grown[run.index as int] is Processed);
                            assert(self.ledger@.take(old(self).ledger@.len() as int) =~= kept.take(
                                old(self).ledger@.len() as int,
                            ));
                        }
                        Event::Done
                    }
                },
                Action::Rollback => {
                    staged = Vec::new();
                    update = None;
                    Event::Done
                },
            };
            proof {
                let after = run.next(event);
                match after.stage {
                    Stage::Inserting { written } => {
                        assert(entries(staged@) =~= entries_of(after.current(), after.plan()).take(
                            written as int,
                        ));
                    },
                    Stage::Advancing => {
                        assert(entries(staged@) =~= entries_of(after.current(), after.plan()));
                    },
                    _ => {},
                }
                assert(in_step(after, faults@, entries(staged@), update));
                assert forall|p: int|
                    0 <= p < old(self).obligations@.len() && !start.touched(
                        today@,
                        after.outcomes,
                        old(self).obligations@[p].id@,
                    ) implies #[trigger] self.obligations@[p] == old(self).obligations@[p] by {
                    let id = old(self).obligations@[p].id@;
                    if start.touched(today@, run.outcomes, id) {
                        let i = choose|i: int|
                            0 <= i < run.outcomes.len() && #[trigger] run.outcomes[i] is Processed
                                && start.due(today@)[i].id == id;
                        assert(after.outcomes[i] is Processed);
                    }
                }
                if after.index == run.index + 1 {
                    let outcome = after.outcomes.last();
                    assert(after.outcomes.drop_last() =~= run.outcomes);
                    assert(outcome == verdicts[run.index as int]);
                    assert(verdicts.take(run.index as int + 1) =~= verdicts.take(run.index as int).push(
                        outcome,
                    ));
                }
            }
            let (next_machine, next_action) = machine.step(event);
            machine = next_machine;
            action = next_action;
        }
    }
}

/// The store refuses none of the first `upto` inserts of the unit of work
/// with number `unit`.
pub open spec fn inserts_accepted(faults: Seq<Fault>, unit: usize, upto: nat) -> bool {
    forall|k: usize| k < upto ==> !#[trigger] refused(faults, unit, Write::Insert(k))
}

/// What the store holds of the open unit of work agrees with the stage of
/// the run: the entries inserted so far and the schedule state written are
/// those of the plan, and no request of the unit has been refused, or the
/// unit is being rolled back for the reason for which it fails.
pub open spec fn in_step(
    run: Run,
    faults: Seq<Fault>,
    staged: Seq<LedgerEntry>,
    update: Option<ScheduleUpdate>,
) -> bool {
    let unit = run.index as usize;
    match run.stage {
        Stage::Opening | Stage::Finished => true,
        Stage::Inserting { written } => {
            &&& !refused(faults, unit, Write::Begin)
            &&& inserts_accepted(faults, unit, written as nat)
            &&& staged == entries_of(run.current(), run.plan()).take(written as int)
        },
        Stage::Advancing => {
            &&& !refused(faults, unit, Write::Begin)
            &&& inserts_accepted(faults, unit, run.plan().dates.len())
            &&& staged == entries_of(run.current(), run.plan())
        },
        Stage::Committing => {
            &&& !refused(faults, unit, Write::Begin)
            &&& inserts_accepted(faults, unit, run.plan().dates.len())
            &&& !refused(faults, unit, Write::Advance)
            &&& staged == entries_of(run.current(), run.plan())
            &&& update matches Some(next) && next@ == update_of(run.current(), run.plan())
        },
        Stage::Undoing { failure } => Outcome::Failed(failure) == unit_outcome(
            run.current(),
            run.today,
            faults,
            unit,
        ),
    }
}

impl Holdings {
    /// The days of the book are days of the calendar, and no two obligations
    /// share an identifier.
    pub open spec fn wf(self) -> bool {
        &&& forall|p: int|
            0 <= p < self.obligations.len() ==> (#[trigger] self.obligations[p]).next_due_date.valid()
        &&& forall|p: int, q: int|
            0 <= p < q < self.obligations.len() ==> (#[trigger] self.obligations[p]).id != (
            #[trigger] self.obligations[q]).id
    }

    /// The number that the obligation at place `p` has in the due set: how
    /// many due obligations the book holds before it.
    pub open spec fn unit_of(self, today: Ymd, p: int) -> int {
        self.obligations.take(p).filter(|o: Obligation| o.is_due(today)).len() as int
    }

    /// The obligation at place `p` is due, and its unit of work is among
    /// those that `outcomes` reports as committed.
    pub open spec fn committed(self, today: Ymd, outcomes: Seq<Outcome>, p: int) -> bool {
        &&& self.obligations[p].is_due(today)
        &&& self.unit_of(today, p) < outcomes.len()
        &&& outcomes[self.unit_of(today, p)] is Processed
    }

    /// The entries that the committed units of work among the first in
    /// `due` put into the ledger, in the order of the units.
    pub open spec fn added(due: Seq<Obligation>, today: Ymd, outcomes: Seq<Outcome>) -> Seq<
        LedgerEntry,
    >
        decreases outcomes.len(),
    {
        if outcomes.len() == 0 {
            Seq::empty()
        } else {
            let before = Self::added(due, today, outcomes.drop_last());
            let obligation = due[outcomes.len() - 1];
            match outcomes.last() {
                Outcome::Processed(_) => before + entries_of(
                    obligation,
                    obligation.plan(today)->Ok_0,
                ),
                Outcome::Failed(_) => before,
            }
        }
    }
}

/// The entries of a ledger that name `id` as the obligation they come from.
pub open spec fn entries_from(ledger: Seq<LedgerEntry>, id: Seq<char>) -> Seq<LedgerEntry> {
    ledger.filter(|e: LedgerEntry| e.source_recurring_id == Some(id))
}

/// A due obligation stands in the due set at the number that the count of
/// due obligations before it gives.
pub proof fn lemma_unit_of(book: Holdings, today: Ymd, p: int)
    requires
        0 <= p < book.obligations.len(),
        book.obligations[p].is_due(today),
    ensures
        0 <= book.unit_of(today, p) < book.due(today).len(),
        book.due(today)[book.unit_of(today, p)] == book.obligations[p],
{
    let all = book.obligations;
    let is_due = |o: Obligation| o.is_due(today);
    let head = all.take(p);
    let tail = all.skip(p + 1);
    let one = seq![all[p]];
    assert(all =~= head + (one + tail));
    Seq::filter_distributes_over_add(head, one + tail, is_due);
    Seq::filter_distributes_over_add(one, tail, is_due);
    assert(one.filter(is_due) =~= one) by {
        reveal_with_fuel(Seq::filter, 2);
        assert(one.drop_last() =~= Seq::<Obligation>::empty());
    }
}

/// Every member of the due set is an obligation of the book, at a place
/// whose number in the due set is the member's.
pub proof fn lemma_place_of(book: Holdings, today: Ymd, i: int) -> (p: int)
    requires
        0 <= i < book.due(today).len(),
    ensures
        0 <= p < book.obligations.len(),
        book.obligations[p].is_due(today),
        book.unit_of(today, p) == i,
        book.due(today)[i] == book.obligations[p],
    decreases book.obligations.len(),
{
    let all = book.obligations;
    let is_due = |o: Obligation| o.is_due(today);
    reveal(Seq::filter);
    let init = Holdings { obligations: all.drop_last(), ledger: book.ledger };
    if i < init.due(today).len() {
        let p = lemma_place_of(init, today, i);
        assert(all.take(p) =~= all.drop_last().take(p));
        p
    } else {
        let p = all.len() - 1;
        assert(all.take(p) =~= all.drop_last());
        p
    }
}

/// What a run leaves in the book, obligation by obligation: an obligation
/// whose unit of work was committed has the schedule state of its plan and
/// is otherwise as it was; every other obligation is as it was. The ledger
/// is the old one followed by the entries of the committed units.
pub proof fn lemma_settled(book: Holdings, today: Ymd, outcomes: Seq<Outcome>)
    requires
        book.wf(),
        outcomes.len() <= book.due(today).len(),
    ensures
        ({
            let after = book.settled(book.due(today), today, outcomes);
            &&& after.obligations.len() == book.obligations.len()
            &&& forall|p: int|
                0 <= p < book.obligations.len() ==> #[trigger] after.obligations[p] == if book.committed(
                    today,
                    outcomes,
                    p,
                ) {
                    advanced(book.obligations[p], book.obligations[p].plan(today)->Ok_0)
                } else {
                    book.obligations[p]
                }
            &&& after.ledger == book.ledger + Holdings::added(book.due(today), today, outcomes)
        }),
    decreases outcomes.len(),
{
    let due = book.due(today);
    let after = book.settled(due, today, outcomes);
    if outcomes.len() > 0 {
        let k = outcomes.len() - 1;
        let earlier = outcomes.drop_last();
        let before = book.settled(due, today, earlier);
        lemma_settled(book, today, earlier);
        let place = lemma_place_of(book, today, k);
        assert forall|p: int| 0 <= p < book.obligations.len() implies #[trigger] after.obligations[p]
            == if book.committed(today, outcomes, p) {
            advanced(book.obligations[p], book.obligations[p].plan(today)->Ok_0)
        } else {
            book.obligations[p]
        } by {
            if book.obligations[p].is_due(today) {
                lemma_unit_of(book, today, p);
            }
            if p != place {
                if p < place {
                    assert(book.obligations[p].id != book.obligations[place].id);
                } else {
                    assert(book.obligations[place].id != book.obligations[p].id);
                }
            }
            assert(before.obligations[p].id == book.obligations[p].id);
        }
        match outcomes.last() {
            Outcome::Processed(_) => {
                let fresh = entries_of(due[k], due[k].plan(today)->Ok_0);
                assert(after.ledger =~= book.ledger + (Holdings::added(due, today, earlier)
                    + fresh));
            },
            Outcome::Failed(_) => {},
        }
    } else {
        assert(book.ledger + Seq::<LedgerEntry>::empty() =~= book.ledger);
        assert(after.obligations =~= book.obligations);
    }
}

/// Filtering keeps a sequence whose members all pass, and empties one whose
/// members all fail.
proof fn lemma_filter_all_or_none(s: Seq<LedgerEntry>, pred: spec_fn(LedgerEntry) -> bool)
    ensures
        (forall|k: int| 0 <= k < s.len() ==> pred(#[trigger] s[k])) ==> s.filter(pred) == s,
        (forall|k: int| 0 <= k < s.len() ==> !pred(#[trigger] s[k])) ==> s.filter(pred)
            == Seq::<LedgerEntry>::empty(),
    decreases s.len(),
{
    reveal(Seq::filter);
    if s.len() > 0 {
        lemma_filter_all_or_none(s.drop_last(), pred);
        assert(s.drop_last().push(s.last()) =~= s);
    }
}

/// Of the entries that the committed units put into the ledger, those that
/// name the obligation at place `p` are the entries of its plan where its
/// unit was committed, and none otherwise.
pub proof fn lemma_added_from(book: Holdings, today: Ymd, outcomes: Seq<Outcome>, p: int)
    requires
        book.wf(),
        outcomes.len() <= book.due(today).len(),
        0 <= p < book.obligations.len(),
    ensures
        entries_from(Holdings::added(book.due(today), today, outcomes), book.obligations[p].id)
            == if book.committed(today, outcomes, p) {
            entries_of(book.obligations[p], book.obligations[p].plan(today)->Ok_0)
        } else {
            Seq::<LedgerEntry>::empty()
        },
    decreases outcomes.len(),
{
    let due = book.due(today);
    let id = book.obligations[p].id;
    let named = |e: LedgerEntry| e.source_recurring_id == Some(id);
    if book.obligations[p].is_due(today) {
        lemma_unit_of(book, today, p);
    }
    if outcomes.len() > 0 {
        let k = outcomes.len() - 1;
        let earlier = outcomes.drop_last();
        lemma_added_from(book, today, earlier, p);
        let place = lemma_place_of(book, today, k);
        if p != place {
            if p < place {
                assert(book.obligations[p].id != book.obligations[place].id);
            } else {
                assert(book.obligations[place].id != book.obligations[p].id);
            }
        }
        match outcomes.last() {
            Outcome::Processed(_) => {
                let fresh = entries_of(due[k], due[k].plan(today)->Ok_0);
                Seq::filter_distributes_over_add(
                    Holdings::added(due, today, earlier),
                    fresh,
                    named,
                );
                lemma_filter_all_or_none(fresh, named);
                if p == place {
                    assert(Seq::<LedgerEntry>::empty() + fresh =~= fresh);
                } else {
                    let kept = entries_from(Holdings::added(due, today, earlier), id);
                    assert(kept + Seq::<LedgerEntry>::empty() =~= kept);
                }
            },
            Outcome::Failed(_) => {},
        }
    } else {
        reveal(Seq::filter);
    }
}

/// A committed unit of work is that of an obligation with a given
/// identifier only where the obligation that has the identifier is due and
/// its own unit was committed. So the record of every other obligation, with
/// its audit stamps, is after a run what it was before: the ones that are
/// not due, and the due ones whose unit failed.
pub proof fn law_only_committed_are_touched(
    book: Holdings,
    today: Ymd,
    outcomes: Seq<Outcome>,
    p: int,
)
    requires
        book.wf(),
        0 <= p < book.obligations.len(),
        outcomes.len() <= book.due(today).len(),
    ensures
        book.touched(today, outcomes, book.obligations[p].id) <==> book.committed(
            today,
            outcomes,
            p,
        ),
{
    let id = book.obligations[p].id;
    if book.touched(today, outcomes, id) {
        let i = choose|i: int|
            0 <= i < outcomes.len() && #[trigger] outcomes[i] is Processed && book.due(today)[i].id
                == id;
        let place = lemma_place_of(book, today, i);
        if place < p {
            assert(book.obligations[place].id != book.obligations[p].id);
        }
        if p < place {
            assert(book.obligations[p].id != book.obligations[place].id);
        }
    }
    if book.committed(today, outcomes, p) {
        lemma_unit_of(book, today, p);
        assert(outcomes[book.unit_of(today, p)] is Processed);
    }
}

/// An obligation that is not due on the day of a run is, after the run,
/// exactly as it was before.
pub proof fn law_undue_obligations_stay(book: Holdings, today: Ymd, faults: Seq<Fault>, p: int)
    requires
        book.wf(),
        0 <= p < book.obligations.len(),
        !book.obligations[p].is_due(today),
    ensures
        book.after_run(today, faults).obligations[p] == book.obligations[p],
{
    lemma_settled(book, today, book.outcomes(today, faults));
}

/// A unit of work is committed where its plan goes through and the store
/// refuses none of its requests, whatever becomes of the other units.
pub proof fn law_unrefused_unit_commits(book: Holdings, today: Ymd, faults: Seq<Fault>, p: int)
    requires
        0 <= p < book.obligations.len(),
        book.obligations[p].is_due(today),
        book.obligations[p].plan(today) is Ok,
        forall|write: Write| !#[trigger] refused(faults, book.unit_of(today, p) as usize, write),
    ensures
        book.committed(today, book.outcomes(today, faults), p),
{
    lemma_unit_of(book, today, p);
}

/// After a run, an obligation whose unit of work was committed has the
/// schedule state of its plan and is no longer due on the day of the run:
/// its next due day lies after that day, or it is completed.
pub proof fn law_committed_obligation_catches_up(
    book: Holdings,
    today: Ymd,
    faults: Seq<Fault>,
    p: int,
)
    requires
        book.wf(),
        today.valid(),
        0 <= p < book.obligations.len(),
        book.committed(today, book.outcomes(today, faults), p),
    ensures
        ({
            let after = book.after_run(today, faults).obligations[p];
            &&& book.obligations[p].plan(today) is Ok
            &&& after == advanced(book.obligations[p], book.obligations[p].plan(today)->Ok_0)
            &&& today.before(after.next_due_date) || after.status == crate::schedule::Status::Completed
            &&& !after.is_due(today)
        }),
{
    lemma_settled(book, today, book.outcomes(today, faults));
    lemma_unit_of(book, today, p);
    crate::generator::law_run_catches_up(book.obligations[p], today);
}

/// All or nothing. A due obligation whose unit of work failed is, after
/// the run, exactly as it was, and the ledger holds no entry from it that
/// it did not hold before. One whose unit was committed has the schedule
/// state of its plan, and the ledger holds, after those it held from it
/// before, every entry of its plan and no other. Neither depends on how the
/// units of the other obligations ended.
pub proof fn law_units_are_whole_and_apart(book: Holdings, today: Ymd, faults: Seq<Fault>, p: int)
    requires
        book.wf(),
        0 <= p < book.obligations.len(),
        book.obligations[p].is_due(today),
    ensures
        ({
            let after = book.after_run(today, faults);
            let obligation = book.obligations[p];
            let plan = obligation.plan(today)->Ok_0;
            if book.committed(today, book.outcomes(today, faults), p) {
                &&& after.obligations[p] == advanced(obligation, plan)
                &&& entries_from(after.ledger, obligation.id) == entries_from(
                    book.ledger,
                    obligation.id,
                ) + entries_of(obligation, plan)
            } else {
                &&& after.obligations[p] == obligation
                &&& entries_from(after.ledger, obligation.id) == entries_from(
                    book.ledger,
                    obligation.id,
                )
            }
        }),
{
    let outcomes = book.outcomes(today, faults);
    let id = book.obligations[p].id;
    lemma_settled(book, today, outcomes);
    lemma_added_from(book, today, outcomes, p);
    let fresh = Holdings::added(book.due(today), today, outcomes);
    Seq::filter_distributes_over_add(
        book.ledger,
        fresh,
        |e: LedgerEntry| e.source_recurring_id == Some(id),
    );
    if !book.committed(today, outcomes, p) {
        let kept = entries_from(book.ledger, id);
        assert(kept + Seq::<LedgerEntry>::empty() =~= kept);
    }
}

/// How a unit of work ends depends on its own obligation and on the
/// refusals of its own requests alone: two stores that refuse the same
/// requests of one unit end it alike, whatever they refuse elsewhere.
pub proof fn law_outcome_is_local(
    obligation: Obligation,
    today: Ymd,
    unit: usize,
    faults: Seq<Fault>,
    others: Seq<Fault>,
)
    requires
        forall|write: Write| #[trigger]
            refused(faults, unit, write) == refused(others, unit, write),
    ensures
        unit_outcome(obligation, today, faults, unit) == unit_outcome(
            obligation,
            today,
            others,
            unit,
        ),
{
    if obligation.plan(today) is Ok {
        let plan = obligation.plan(today)->Ok_0;
        if exists|k: usize|
            k < plan.dates.len() && #[trigger] refused(faults, unit, Write::Insert(k)) {
            let k = choose|k: usize|
                k < plan.dates.len() && #[trigger] refused(faults, unit, Write::Insert(k));
            assert(refused(others, unit, Write::Insert(k)));
        }
        if exists|k: usize|
            k < plan.dates.len() && #[trigger] refused(others, unit, Write::Insert(k)) {
            let k = choose|k: usize|
                k < plan.dates.len() && #[trigger] refused(others, unit, Write::Insert(k));
            assert(refused(faults, unit, Write::Insert(k)));
        }
    }
}

/// Idempotence. After a run in which every unit of work was committed, a
/// second run on the same day leaves the obligations and the ledger as the
/// first run left them, whatever the store refuses in the second.
pub proof fn law_second_run_changes_nothing(
    book: Holdings,
    today: Ymd,
    faults: Seq<Fault>,
    again: Seq<Fault>,
)
    requires
        book.wf(),
        today.valid(),
        forall|i: int|
            0 <= i < book.due(today).len() ==> #[trigger] book.outcomes(today, faults)[i] is Processed,
    ensures
        book.after_run(today, faults).due(today).len() == 0,
        book.after_run(today, faults).after_run(today, again) == book.after_run(today, faults),
{
    let after = book.after_run(today, faults);
    let outcomes = book.outcomes(today, faults);
    lemma_settled(book, today, outcomes);
    if after.due(today).len() > 0 {
        let p = lemma_place_of(after, today, 0);
        if book.obligations[p].is_due(today) {
            lemma_unit_of(book, today, p);
            assert(outcomes[book.unit_of(today, p)] is Processed);
            law_committed_obligation_catches_up(book, today, faults, p);
        }
    }
    assert(after.outcomes(today, again) =~= Seq::<Outcome>::empty());
}

} // verus!

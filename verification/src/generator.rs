//! The occurrence generator: every occurrence that an obligation has missed
//! up to a given day, and the schedule state that follows them.

use crate::calendar::{
    is_leap_year, lemma_month_index_order, lemma_month_later, Date, Ymd, MAX_YEAR,
};
use crate::schedule::{EngineError, Obligation, RecurringTransaction, Status};
use vstd::prelude::*;

verus! {

/// What catching up on one obligation yields.
#[derive(Debug)]
pub struct Generation {
    /// The days of the occurrences to book, earliest first.
    pub occurrences: Vec<Date>,
    /// The day of the first occurrence that was not booked.
    pub next_due_date: Date,
    /// The count of booked occurrences, these included.
    pub execution_count: i32,
    pub status: Status,
}

/// The mathematical view of a [`Generation`].
pub struct Plan {
    pub dates: Seq<Ymd>,
    pub next_due_date: Ymd,
    pub execution_count: int,
    pub status: Status,
}

/// The days that a sequence of dates stands for.
pub open spec fn days(dates: Seq<Date>) -> Seq<Ymd> {
    Seq::new(dates.len(), |i: int| dates[i]@)
}

impl View for Generation {
    type V = Plan;

    open spec fn view(&self) -> Plan {
        Plan {
            dates: days(self.occurrences@),
            next_due_date: self.next_due_date@,
            execution_count: self.execution_count as int,
            status: self.status,
        }
    }
}

/// A plan with days put in front of its own.
pub open spec fn after(dates: Seq<Ymd>, rest: Result<Plan, EngineError>) -> Result<
    Plan,
    EngineError,
> {
    match rest {
        Ok(plan) => Ok(
            Plan {
                dates: dates + plan.dates,
                next_due_date: plan.next_due_date,
                execution_count: plan.execution_count,
                status: plan.status,
            },
        ),
        Err(e) => Err(e),
    }
}

/// Catching up from `cursor`, with `count` occurrences booked so far.
///
/// While the cursor has arrived: an obligation at its cap is completed and
/// books nothing more; otherwise the cursor's day is booked, the count grows
/// by one and the cursor moves a month on. A cadence other than the monthly
/// one, a month beyond the calendar and a count beyond its type each fail
/// the whole plan.
pub open spec fn catch_up(
    cursor: Ymd,
    count: int,
    cap: Option<int>,
    monthly: bool,
    today: Ymd,
) -> Result<Plan, EngineError>
    decreases today.month_index() - cursor.month_index() + 1,
    when cursor.valid() && today.valid()
{
    if !cursor.on_or_before(today) {
        Ok(
            Plan {
                dates: Seq::empty(),
                next_due_date: cursor,
                execution_count: count,
                status: Status::Active,
            },
        )
    } else if cap is Some && count >= cap->0 {
        Ok(
            Plan {
                dates: Seq::empty(),
                next_due_date: cursor,
                execution_count: count,
                status: Status::Completed,
            },
        )
    } else if !monthly {
        Err(EngineError::UnsupportedFrequency)
    } else if cursor.month_later().year > MAX_YEAR || count >= i32::MAX {
        Err(EngineError::DateArithmeticFailure)
    } else {
        after(seq![cursor], catch_up(cursor.month_later(), count + 1, cap, monthly, today))
    }
}

impl Obligation {
    /// What a run on `today` books for the obligation, and the schedule
    /// state after it. A completed obligation books nothing and stays as it
    /// is, whatever its next due day.
    pub open spec fn plan(self, today: Ymd) -> Result<Plan, EngineError> {
        if self.status == Status::Completed {
            Ok(
                Plan {
                    dates: Seq::empty(),
                    next_due_date: self.next_due_date,
                    execution_count: self.execution_count,
                    status: Status::Completed,
                },
            )
        } else {
            catch_up(
                self.next_due_date,
                self.execution_count,
                self.total_occurrences,
                self.is_monthly(),
                today,
            )
        }
    }
}

/// Produces every occurrence of `obligation` that is due on `today` or was
/// missed before it, and the schedule state that follows them. Nothing else
/// is read and nothing is written.
pub fn generate(obligation: &RecurringTransaction, today: &Date) -> (r: Result<
    Generation,
    EngineError,
>)
    ensures
        match r {
            Ok(generation) => obligation@.plan(today@) == Ok::<Plan, EngineError>(generation@),
            Err(e) => obligation@.plan(today@) == Err::<Plan, EngineError>(e),
        },
{
    let mut occurrences: Vec<Date> = Vec::new();
    if obligation.status == Status::Completed {
        proof {
            assert(days(occurrences@) =~= Seq::<Ymd>::empty());
        }
        return Ok(
            Generation {
                occurrences,
                next_due_date: obligation.next_due_date,
                execution_count: obligation.execution_count,
                status: Status::Completed,
            },
        );
    }
    let monthly = obligation.is_monthly();
    let mut cursor: Date = obligation.next_due_date;
    let mut count: i32 = obligation.execution_count;
    let ghost cap = obligation@.total_occurrences;
    proof {
        cursor.lemma_valid();
        today.lemma_valid();
        assert(days(occurrences@) =~= Seq::<Ymd>::empty());
        let rest = catch_up(cursor@, count as int, cap, monthly, today@);
        if rest is Ok {
            assert(Seq::<Ymd>::empty() + rest->Ok_0.dates =~= rest->Ok_0.dates);
        }
    }
    while cursor.on_or_before(today)
        invariant
            cursor@.valid(),
            today@.valid(),
            monthly == obligation@.is_monthly(),
            cap == obligation@.total_occurrences,
            obligation@.status == Status::Active,
            obligation@.plan(today@) == after(
                days(occurrences@),
                catch_up(cursor@, count as int, cap, monthly, today@),
            ),
        decreases today@.month_index() - cursor@.month_index() + 1,
    {
        if let Some(total) = obligation.total_occurrences {
            if count >= total {
                return Ok(
                    Generation {
                        occurrences,
                        next_due_date: cursor,
                        execution_count: count,
                        status: Status::Completed,
                    },
                );
            }
        }
        if !monthly {
            return Err(EngineError::UnsupportedFrequency);
        }
        let next = match cursor.next_month() {
            Some(next) => next,
            None => {
                return Err(EngineError::DateArithmeticFailure);
            },
        };
        if count == i32::MAX {
            return Err(EngineError::DateArithmeticFailure);
        }
        proof {
            lemma_month_later(cursor@);
            lemma_month_index_order(cursor@, today@);
            let rest = catch_up(next@, count + 1, cap, monthly, today@);
            assert(days(occurrences@.push(cursor)) =~= days(occurrences@) + seq![cursor@]);
            assert(after(days(occurrences@), after(seq![cursor@], rest)) == after(
                days(occurrences@.push(cursor)),
                rest,
            )) by {
                if rest is Ok {
                    assert(days(occurrences@) + (seq![cursor@] + rest->Ok_0.dates) =~= days(
                        occurrences@.push(cursor),
                    ) + rest->Ok_0.dates);
                }
            }
        }
        occurrences.push(cursor);
        count = count + 1;
        cursor = next;
    }
    proof {
        assert(days(occurrences@) + Seq::<Ymd>::empty() =~= days(occurrences@));
    }
    Ok(Generation { occurrences, next_due_date: cursor, execution_count: count, status: Status::Active })
}

/// The day `k` months after `start`, moving one month at a time: a day that
/// was moved back to the end of a shorter month stays on that day of the
/// month from then on.
pub open spec fn nth_month(start: Ymd, k: nat) -> Ymd
    decreases k,
{
    if k == 0 {
        start
    } else {
        nth_month(start.month_later(), (k - 1) as nat)
    }
}

/// The schedule state of `obligation` once `plan` has been booked.
pub open spec fn advanced(obligation: Obligation, plan: Plan) -> Obligation {
    Obligation {
        next_due_date: plan.next_due_date,
        execution_count: plan.execution_count,
        status: plan.status,
        ..obligation
    }
}

/// The shape of every plan: its days are the start and the months after it,
/// one by one and none beyond `today`; the count grows by their number; the
/// next due day is the month after the last of them. A plan that leaves the
/// obligation active has caught up with `today`; one that completes it has
/// stopped at the cap, with days still due.
pub proof fn lemma_plan_shape(cursor: Ymd, count: int, cap: Option<int>, monthly: bool, today: Ymd)
    requires
        cursor.valid(),
        today.valid(),
        catch_up(cursor, count, cap, monthly, today) is Ok,
    ensures
        ({
            let plan = catch_up(cursor, count, cap, monthly, today)->Ok_0;
            &&& plan.execution_count == count + plan.dates.len()
            &&& plan.next_due_date == nth_month(cursor, plan.dates.len())
            &&& plan.next_due_date.valid()
            &&& forall|i: int|
                0 <= i < plan.dates.len() ==> {
                    &&& #[trigger] plan.dates[i] == nth_month(cursor, i as nat)
                    &&& plan.dates[i].valid()
                    &&& plan.dates[i].on_or_before(today)
                }
            &&& plan.status == Status::Active ==> today.before(plan.next_due_date)
            &&& plan.status == Status::Completed ==> {
                &&& plan.next_due_date.on_or_before(today)
                &&& cap is Some
                &&& plan.execution_count >= cap->0
            }
            &&& cap is Some && count <= cap->0 ==> plan.execution_count <= cap->0
            &&& plan.dates.len() > 0 ==> monthly
        }),
    decreases today.month_index() - cursor.month_index() + 1,
{
    if cursor.on_or_before(today) && !(cap is Some && count >= cap->0) {
        let next = cursor.month_later();
        lemma_month_later(cursor);
        lemma_month_index_order(cursor, today);
        lemma_plan_shape(next, count + 1, cap, monthly, today);
        let rest = catch_up(next, count + 1, cap, monthly, today)->Ok_0;
        let plan = catch_up(cursor, count, cap, monthly, today)->Ok_0;
        assert(plan.dates =~= seq![cursor] + rest.dates);
        assert forall|i: int| 0 <= i < plan.dates.len() implies {
            &&& #[trigger] plan.dates[i] == nth_month(cursor, i as nat)
            &&& plan.dates[i].valid()
            &&& plan.dates[i].on_or_before(today)
        } by {
            if i > 0 {
                assert(plan.dates[i] == rest.dates[i - 1]);
            }
        }
    }
}

/// A plan books at most one day for each month from the cursor's to
/// today's, far fewer than a machine can count.
pub proof fn lemma_plan_length(cursor: Ymd, count: int, cap: Option<int>, monthly: bool, today: Ymd)
    requires
        cursor.valid(),
        today.valid(),
        catch_up(cursor, count, cap, monthly, today) is Ok,
    ensures
        catch_up(cursor, count, cap, monthly, today)->Ok_0.dates.len() <= 12 * (MAX_YEAR
            - crate::calendar::MIN_YEAR + 1),
        cursor.on_or_before(today) ==> catch_up(cursor, count, cap, monthly, today)->Ok_0.dates.len()
            <= today.month_index() - cursor.month_index() + 1,
        !cursor.on_or_before(today) ==> catch_up(cursor, count, cap, monthly, today)->Ok_0.dates.len()
            == 0,
    decreases today.month_index() - cursor.month_index() + 1,
{
    if cursor.on_or_before(today) && !(cap is Some && count >= cap->0) {
        let next = cursor.month_later();
        lemma_month_later(cursor);
        lemma_month_index_order(cursor, today);
        lemma_plan_length(next, count + 1, cap, monthly, today);
        if next.on_or_before(today) {
            lemma_month_index_order(next, today);
        }
    }
}

/// Successive months are successive days: each is later than the one before.
pub proof fn lemma_months_ascend(start: Ymd, i: nat, j: nat)
    requires
        start.valid(),
        i < j,
        nth_month(start, j).valid(),
    ensures
        nth_month(start, i).valid(),
        nth_month(start, i).before(nth_month(start, j)),
    decreases j,
{
    lemma_nth_month_year(start, 1, j);
    lemma_month_later(start);
    if i == 0 {
        if j > 1 {
            lemma_months_ascend(start.month_later(), 0, (j - 1) as nat);
        }
    } else {
        lemma_months_ascend(start.month_later(), (i - 1) as nat, (j - 1) as nat);
    }
}

/// The months after a day never lie in an earlier year than an earlier one
/// of them.
pub proof fn lemma_nth_month_year(start: Ymd, i: nat, j: nat)
    requires
        1 <= start.month <= 12,
        i <= j,
    ensures
        nth_month(start, i).year <= nth_month(start, j).year,
        1 <= nth_month(start, j).month <= 12,
        nth_month(start, j).month_index() == start.month_index() + j,
    decreases j,
{
    if j > 0 {
        if i == 0 {
            lemma_nth_month_year(start.month_later(), 0, (j - 1) as nat);
        } else {
            lemma_nth_month_year(start.month_later(), (i - 1) as nat, (j - 1) as nat);
        }
    }
}

/// The first `k` months from `start`, the start included.
pub open spec fn first_months(start: Ymd, k: nat) -> Seq<Ymd> {
    Seq::new(k, |i: int| nth_month(start, i as nat))
}

/// Where the first `k` occurrences are due and neither the cap nor a limit
/// of the calendar or of the count is in their way, catching up books them
/// and goes on from the month after the last of them.
pub proof fn lemma_catch_up_prefix(
    cursor: Ymd,
    count: int,
    cap: Option<int>,
    monthly: bool,
    today: Ymd,
    k: nat,
)
    requires
        cursor.valid(),
        today.valid(),
        nth_month(cursor, k).valid(),
        k > 0 ==> monthly && nth_month(cursor, (k - 1) as nat).on_or_before(today),
        cap is Some ==> count + k <= cap->0,
        count + k <= i32::MAX,
    ensures
        catch_up(cursor, count, cap, monthly, today) == after(
            first_months(cursor, k),
            catch_up(nth_month(cursor, k), count + k, cap, monthly, today),
        ),
    decreases k,
{
    let rest = catch_up(nth_month(cursor, k), count + k, cap, monthly, today);
    if k == 0 {
        assert(first_months(cursor, 0) =~= Seq::<Ymd>::empty());
        if rest is Ok {
            assert(Seq::<Ymd>::empty() + rest->Ok_0.dates =~= rest->Ok_0.dates);
        }
    } else {
        let next = cursor.month_later();
        lemma_nth_month_year(cursor, 1, k);
        lemma_month_later(cursor);
        if k > 1 {
            lemma_months_ascend(cursor, (k - 1) as nat, k);
            lemma_months_ascend(cursor, 0, (k - 1) as nat);
        }
        lemma_catch_up_prefix(next, count + 1, cap, monthly, today, (k - 1) as nat);
        assert(first_months(cursor, k) =~= seq![cursor] + first_months(next, (k - 1) as nat));
        if rest is Ok {
            assert(seq![cursor] + (first_months(next, (k - 1) as nat) + rest->Ok_0.dates)
                =~= first_months(cursor, k) + rest->Ok_0.dates);
        }
    }
}

/// After a run that went through, an obligation is no longer due on the
/// day of the run: its next due day lies after that day, or it is completed.
pub proof fn law_run_catches_up(obligation: Obligation, today: Ymd)
    requires
        obligation.next_due_date.valid(),
        today.valid(),
        obligation.plan(today) is Ok,
    ensures
        ({
            let next = advanced(obligation, obligation.plan(today)->Ok_0);
            &&& today.before(next.next_due_date) || next.status == Status::Completed
            &&& !next.is_due(today)
        }),
{
    if obligation.status == Status::Active {
        lemma_plan_shape(
            obligation.next_due_date,
            obligation.execution_count,
            obligation.total_occurrences,
            obligation.is_monthly(),
            today,
        );
    }
}

/// Planning again on the same day, for an obligation whose plan has been
/// booked, books nothing and leaves the schedule state as it is.
pub proof fn law_second_plan_books_nothing(obligation: Obligation, today: Ymd)
    requires
        obligation.next_due_date.valid(),
        today.valid(),
        obligation.plan(today) is Ok,
    ensures
        ({
            let first = obligation.plan(today)->Ok_0;
            advanced(obligation, first).plan(today) == Ok::<Plan, EngineError>(
                Plan {
                    dates: Seq::empty(),
                    next_due_date: first.next_due_date,
                    execution_count: first.execution_count,
                    status: first.status,
                },
            )
        }),
{
    if obligation.status == Status::Active {
        lemma_plan_shape(
            obligation.next_due_date,
            obligation.execution_count,
            obligation.total_occurrences,
            obligation.is_monthly(),
            today,
        );
    }
}

/// A completed obligation is never taken up again: its plan books nothing
/// and leaves it completed, on its next due day and at its count, whatever
/// the day of the run.
pub proof fn law_completed_is_final(obligation: Obligation, today: Ymd)
    requires
        obligation.status == Status::Completed,
    ensures
        obligation.plan(today) is Ok,
        obligation.plan(today)->Ok_0.dates.len() == 0,
        advanced(obligation, obligation.plan(today)->Ok_0) == obligation,
{
}

/// Each month after a day is the month after the one before it.
pub proof fn lemma_nth_month_step(start: Ymd, k: nat)
    ensures
        nth_month(start, k + 1) == nth_month(start, k).month_later(),
    decreases k,
{
    if k > 0 {
        lemma_nth_month_step(start.month_later(), (k - 1) as nat);
    } else {
        reveal_with_fuel(nth_month, 2);
    }
}

/// The next due day after a run is the day of the next occurrence that has
/// no entry yet: the next due day of before where nothing was booked, and
/// otherwise the month after the last day that was booked.
pub proof fn law_next_due_follows_last(obligation: Obligation, today: Ymd)
    requires
        obligation.next_due_date.valid(),
        today.valid(),
        obligation.plan(today) is Ok,
    ensures
        ({
            let plan = obligation.plan(today)->Ok_0;
            if plan.dates.len() == 0 {
                plan.next_due_date == obligation.next_due_date
            } else {
                plan.next_due_date == plan.dates.last().month_later() && plan.dates[0]
                    == obligation.next_due_date
            }
        }),
{
    if obligation.status == Status::Active {
        lemma_plan_shape(
            obligation.next_due_date,
            obligation.execution_count,
            obligation.total_occurrences,
            obligation.is_monthly(),
            today,
        );
        let plan = obligation.plan(today)->Ok_0;
        if plan.dates.len() > 0 {
            lemma_nth_month_step(obligation.next_due_date, (plan.dates.len() - 1) as nat);
            assert(plan.dates[plan.dates.len() - 1] == nth_month(
                obligation.next_due_date,
                (plan.dates.len() - 1) as nat,
            ));
            assert(plan.dates[0] == nth_month(obligation.next_due_date, 0));
        }
    }
}

/// The days of a plan are in strictly increasing order.
pub proof fn law_occurrences_ascend(obligation: Obligation, today: Ymd, i: int, j: int)
    requires
        obligation.next_due_date.valid(),
        today.valid(),
        obligation.plan(today) is Ok,
        0 <= i < j < obligation.plan(today)->Ok_0.dates.len(),
    ensures
        obligation.plan(today)->Ok_0.dates[i].before(obligation.plan(today)->Ok_0.dates[j]),
{
    if obligation.status == Status::Active {
        lemma_plan_shape(
            obligation.next_due_date,
            obligation.execution_count,
            obligation.total_occurrences,
            obligation.is_monthly(),
            today,
        );
    }
    let plan = obligation.plan(today)->Ok_0;
    assert(plan.dates[j] == nth_month(obligation.next_due_date, j as nat));
    assert(plan.dates[i] == nth_month(obligation.next_due_date, i as nat));
    lemma_months_ascend(obligation.next_due_date, i as nat, j as nat);
}

/// A plan keeps the count of booked occurrences within the cap.
pub proof fn law_plan_keeps_cap(obligation: Obligation, today: Ymd)
    requires
        obligation.next_due_date.valid(),
        today.valid(),
        obligation.within_cap(),
        obligation.plan(today) is Ok,
    ensures
        advanced(obligation, obligation.plan(today)->Ok_0).within_cap(),
{
    if obligation.status == Status::Active {
        lemma_plan_shape(
            obligation.next_due_date,
            obligation.execution_count,
            obligation.total_occurrences,
            obligation.is_monthly(),
            today,
        );
    }
}

/// The count of a catch-up: where `k` cadence periods have begun since the
/// next due day and the cap, if there is one, leaves room for them, a
/// monthly obligation books exactly `k` entries, on the next due day and
/// the `k - 1` months after it, and its count grows by exactly `k`.
pub proof fn law_catch_up_count(obligation: Obligation, today: Ymd, k: nat)
    requires
        obligation.status == Status::Active,
        obligation.next_due_date.valid(),
        today.valid(),
        obligation.is_monthly(),
        nth_month(obligation.next_due_date, k).valid(),
        k > 0 ==> nth_month(obligation.next_due_date, (k - 1) as nat).on_or_before(today),
        today.before(nth_month(obligation.next_due_date, k)),
        obligation.total_occurrences matches Some(cap) ==> obligation.execution_count + k <= cap,
        obligation.execution_count + k <= i32::MAX,
    ensures
        obligation.plan(today) == Ok::<Plan, EngineError>(
            Plan {
                dates: first_months(obligation.next_due_date, k),
                next_due_date: nth_month(obligation.next_due_date, k),
                execution_count: obligation.execution_count + k,
                status: Status::Active,
            },
        ),
{
    lemma_catch_up_prefix(
        obligation.next_due_date,
        obligation.execution_count,
        obligation.total_occurrences,
        true,
        today,
        k,
    );
    assert(first_months(obligation.next_due_date, k) + Seq::<Ymd>::empty() =~= first_months(
        obligation.next_due_date,
        k,
    ));
}

/// The cap: where an obligation may have `cap` occurrences in all and more
/// of them are due than the cap leaves room for, the plan books exactly as
/// many as bring the count to `cap`, and completes the obligation.
pub proof fn law_cap_stops_generation(obligation: Obligation, today: Ymd, cap: int)
    requires
        obligation.status == Status::Active,
        obligation.next_due_date.valid(),
        today.valid(),
        obligation.total_occurrences == Some(cap),
        obligation.execution_count <= cap <= i32::MAX,
        obligation.execution_count < cap ==> obligation.is_monthly(),
        nth_month(obligation.next_due_date, (cap - obligation.execution_count) as nat).valid(),
        nth_month(
            obligation.next_due_date,
            (cap - obligation.execution_count) as nat,
        ).on_or_before(today),
    ensures
        obligation.plan(today) == Ok::<Plan, EngineError>(
            Plan {
                dates: first_months(
                    obligation.next_due_date,
                    (cap - obligation.execution_count) as nat,
                ),
                next_due_date: nth_month(
                    obligation.next_due_date,
                    (cap - obligation.execution_count) as nat,
                ),
                execution_count: cap,
                status: Status::Completed,
            },
        ),
{
    let k = (cap - obligation.execution_count) as nat;
    let start = obligation.next_due_date;
    if k > 0 {
        lemma_months_ascend(start, (k - 1) as nat, k);
    }
    lemma_catch_up_prefix(
        start,
        obligation.execution_count,
        obligation.total_occurrences,
        obligation.is_monthly(),
        today,
        k,
    );
    assert(first_months(start, k) + Seq::<Ymd>::empty() =~= first_months(start, k));
}

/// Crossing February: an obligation due on the 31st of January has its
/// second occurrence on the last day of February, the 29th in a leap year
/// and the 28th otherwise, and none in the first days of March.
pub proof fn law_february_occurrence(obligation: Obligation, today: Ymd)
    requires
        obligation.next_due_date.valid(),
        obligation.next_due_date.month == 1,
        obligation.next_due_date.day == 31,
        today.valid(),
        obligation.plan(today) is Ok,
        obligation.plan(today)->Ok_0.dates.len() >= 2,
    ensures
        obligation.plan(today)->Ok_0.dates[1] == (Ymd {
            year: obligation.next_due_date.year,
            month: 2,
            day: if is_leap_year(obligation.next_due_date.year) {
                29
            } else {
                28
            },
        }),
{
    if obligation.status == Status::Active {
        lemma_plan_shape(
            obligation.next_due_date,
            obligation.execution_count,
            obligation.total_occurrences,
            obligation.is_monthly(),
            today,
        );
    }
    let plan = obligation.plan(today)->Ok_0;
    assert(plan.dates[1] == nth_month(obligation.next_due_date, 1));
    reveal_with_fuel(nth_month, 2);
}

} // verus!

//! The groups of transaction types that the books add up, and the tests on
//! the `type` column that select them in a query.

use vstd::prelude::*;

verus! {

/// Transaction types that count towards total income.
pub const INCOME_TYPES: [&'static str; 2] = ["income", "exempt-income"];

/// Transaction types that count towards total donations.
pub const DONATION_TYPES: [&'static str; 2] = ["donation", "non_tithe_donation"];

/// Transaction types that count towards total expenses.
pub const EXPENSE_TYPES: [&'static str; 2] = ["expense", "recognized-expense"];

/// The test that the `type` column holds `name`.
pub open spec fn type_test(name: Seq<char>) -> Seq<char> {
    "type = '"@ + name + "'"@
}

/// The tests for `names`, in their order, with `OR` between them.
pub open spec fn any_type_of(names: Seq<&'static str>) -> Seq<char>
    decreases names.len(),
{
    if names.len() == 0 {
        Seq::empty()
    } else if names.len() == 1 {
        type_test(names[0]@)
    } else {
        any_type_of(names.drop_last()) + " OR "@ + type_test(names.last()@)
    }
}

/// The tests for `names` in parentheses, for a `WHERE` clause.
pub open spec fn where_condition(names: Seq<&'static str>) -> Seq<char> {
    "("@ + any_type_of(names) + ")"@
}

/// The amount where one of the tests for `names` holds and zero elsewhere,
/// for a `SUM`.
pub open spec fn case_condition(names: Seq<&'static str>) -> Seq<char> {
    "CASE WHEN "@ + any_type_of(names) + " THEN amount ELSE 0 END"@
}

fn any_type(names: &[&'static str]) -> (r: String)
    ensures
        r@ == any_type_of(names@),
{
    let mut text = String::new();
    let mut i: usize = 0;
    while i < names.len()
        invariant
            i <= names.len(),
            text@ == any_type_of(names@.take(i as int)),
        decreases names.len() - i,
    {
        proof {
            assert(names@.take(i + 1).drop_last() =~= names@.take(i as int));
        }
        if i > 0 {
            text.append(" OR ");
        }
        text.append("type = '");
        text.append(names[i]);
        text.append("'");
        i = i + 1;
    }
    proof {
        assert(names@.take(names.len() as int) =~= names@);
    }
    text
}

fn type_condition(names: &[&'static str]) -> (r: String)
    ensures
        r@ == where_condition(names@),
{
    let mut text = String::from_str("(");
    let inner = any_type(names);
    text.append(inner.as_str());
    text.append(")");
    text
}

fn type_case_condition(names: &[&'static str]) -> (r: String)
    ensures
        r@ == case_condition(names@),
{
    let mut text = String::from_str("CASE WHEN ");
    let inner = any_type(names);
    text.append(inner.as_str());
    text.append(" THEN amount ELSE 0 END");
    text
}

/// The `WHERE` condition that selects the income types.
pub fn income_types_condition() -> (r: String)
    ensures
        r@ == where_condition(INCOME_TYPES@),
{
    type_condition(&INCOME_TYPES)
}

/// The `CASE` expression that keeps the amounts of the income types.
pub fn income_types_case_condition() -> (r: String)
    ensures
        r@ == case_condition(INCOME_TYPES@),
{
    type_case_condition(&INCOME_TYPES)
}

/// The `WHERE` condition that selects the donation types.
pub fn donation_types_condition() -> (r: String)
    ensures
        r@ == where_condition(DONATION_TYPES@),
{
    type_condition(&DONATION_TYPES)
}

/// The `CASE` expression that keeps the amounts of the donation types.
pub fn donation_types_case_condition() -> (r: String)
    ensures
        r@ == case_condition(DONATION_TYPES@),
{
    type_case_condition(&DONATION_TYPES)
}

/// The `WHERE` condition that selects the expense types.
pub fn expense_types_condition() -> (r: String)
    ensures
        r@ == where_condition(EXPENSE_TYPES@),
{
    type_condition(&EXPENSE_TYPES)
}

/// The `CASE` expression that keeps the amounts of the expense types.
pub fn expense_types_case_condition() -> (r: String)
    ensures
        r@ == case_condition(EXPENSE_TYPES@),
{
    type_case_condition(&EXPENSE_TYPES)
}

/// The query for the donations between two days: the sum over the donation
/// types, and the sum of the donations that are no tithe. The first
/// placeholder stands for the first day, the second for the last.
pub open spec fn donations_in_range_sql() -> Seq<char> {
    "SELECT COALESCE(SUM("@ + case_condition(DONATION_TYPES@)
        + "), 0) AS total_donations_amount, COALESCE(SUM(CASE WHEN type = 'non_tithe_donation' THEN amount ELSE 0 END), 0) AS non_tithe_donation_amount FROM transactions WHERE "@
        + where_condition(DONATION_TYPES@) + " AND date >= ?1 AND date <= ?2;"@
}

/// The query for the expenses between two days: the sum over the expense
/// types. The first placeholder stands for the first day, the second for the
/// last.
pub open spec fn expenses_in_range_sql() -> Seq<char> {
    "SELECT COALESCE(SUM(amount), 0) FROM transactions WHERE "@ + where_condition(EXPENSE_TYPES@)
        + " AND date >= ?1 AND date <= ?2;"@
}

/// The query for the donations between two days.
pub fn donations_in_range_query() -> (r: String)
    ensures
        r@ == donations_in_range_sql(),
{
    let sum = donation_types_case_condition();
    let kinds = donation_types_condition();
    let mut sql = String::from_str("SELECT COALESCE(SUM(");
    sql.append(sum.as_str());
    sql.append(
        "), 0) AS total_donations_amount, COALESCE(SUM(CASE WHEN type = 'non_tithe_donation' THEN amount ELSE 0 END), 0) AS non_tithe_donation_amount FROM transactions WHERE ",
    );
    sql.append(kinds.as_str());
    sql.append(" AND date >= ?1 AND date <= ?2;");
    sql
}

/// The query for the expenses between two days.
pub fn expenses_in_range_query() -> (r: String)
    ensures
        r@ == expenses_in_range_sql(),
{
    let kinds = expense_types_condition();
    let mut sql = String::from_str("SELECT COALESCE(SUM(amount), 0) FROM transactions WHERE ");
    sql.append(kinds.as_str());
    sql.append(" AND date >= ?1 AND date <= ?2;");
    sql
}

} // verus!

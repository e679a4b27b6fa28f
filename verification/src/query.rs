//! The text of the queries that list and export transactions: the filters,
//! the sort order and the page, with the values that the placeholders stand
//! for.

use crate::schedule::Amount;
use crate::text::{decimal, decimal_of, join, joined, same_text, texts};
use vstd::prelude::*;

verus! {

/// The filters of an export.
#[derive(Debug)]
pub struct ExportFiltersPayload {
    pub search: Option<String>,
    /// A day written as year, month and day with hyphens between them.
    pub date_from: Option<String>,
    /// A day written as year, month and day with hyphens between them.
    pub date_to: Option<String>,
    pub types: Option<Vec<String>>,
}

/// The filters of a table of transactions.
#[derive(Debug)]
pub struct TableFiltersPayload {
    pub search: Option<String>,
    /// A day written as year, month and day with hyphens between them.
    pub date_from: Option<String>,
    /// A day written as year, month and day with hyphens between them.
    pub date_to: Option<String>,
    pub types: Option<Vec<String>>,
}

/// The page of a table: pages are counted from 1.
#[derive(Debug)]
pub struct TablePaginationPayload {
    pub page: usize,
    pub limit: usize,
}

/// The order of a table: the column and `asc` or `desc`.
#[derive(Debug)]
pub struct TableSortingPayload {
    pub field: String,
    pub direction: String,
}

/// What a table of transactions is asked to show.
#[derive(Debug)]
pub struct GetFilteredTransactionsArgs {
    pub filters: TableFiltersPayload,
    pub pagination: TablePaginationPayload,
    pub sorting: TableSortingPayload,
}

/// The mathematical view of the filters, of an export and of a table alike.
pub struct Filters {
    pub search: Option<Seq<char>>,
    pub date_from: Option<Seq<char>>,
    pub date_to: Option<Seq<char>>,
    pub types: Option<Seq<Seq<char>>>,
}

/// The view of filters given by their four parts.
pub open spec fn filters_of(
    search: Option<String>,
    date_from: Option<String>,
    date_to: Option<String>,
    types: Option<Vec<String>>,
) -> Filters {
    Filters {
        search: crate::schedule::text_view(search),
        date_from: crate::schedule::text_view(date_from),
        date_to: crate::schedule::text_view(date_to),
        types: match types {
            Some(names) => Some(texts(names@)),
            None => None,
        },
    }
}

impl View for ExportFiltersPayload {
    type V = Filters;

    open spec fn view(&self) -> Filters {
        filters_of(self.search, self.date_from, self.date_to, self.types)
    }
}

impl View for TableFiltersPayload {
    type V = Filters;

    open spec fn view(&self) -> Filters {
        filters_of(self.search, self.date_from, self.date_to, self.types)
    }
}

/// A query and the values of its placeholders, in the order of their numbers.
#[derive(Debug)]
pub struct Query {
    pub sql: String,
    pub params: Vec<String>,
}

/// The two queries of a table, which share the values of their placeholders:
/// the count of all rows that pass the filters, and the rows of one page.
#[derive(Debug)]
pub struct TableQueries {
    pub count_sql: String,
    pub select_sql: String,
    pub params: Vec<String>,
}

/// The columns of a transaction, from the table of transactions.
pub open spec fn select_all() -> Seq<char> {
    "SELECT id, user_id, date, amount, currency, description, type, category, is_chomesh, is_recurring, recurring_day_of_month, recipient, created_at, updated_at FROM transactions"@
}

/// The count of rows, from the table of transactions.
pub open spec fn count_all() -> Seq<char> {
    "SELECT COUNT(*) FROM transactions"@
}

/// A text filter is in force where it is given and not empty.
pub open spec fn given(text: Option<Seq<char>>) -> bool {
    text matches Some(t) && t.len() > 0
}

/// The placeholder with number `n`.
pub open spec fn placeholder(n: nat) -> Seq<char> {
    "?"@ + decimal_of(n)
}

/// The test that the description, the category or the recipient holds the
/// text of placeholder `n`, whatever the case of the letters.
pub open spec fn search_clause(n: nat) -> Seq<char> {
    "(LOWER(description) LIKE LOWER("@ + placeholder(n) + ") OR LOWER(category) LIKE LOWER("@
        + placeholder(n) + ") OR LOWER(recipient) LIKE LOWER("@ + placeholder(n) + "))"@
}

/// The test that the day is that of placeholder `n` or a later one.
pub open spec fn from_clause(n: nat) -> Seq<char> {
    "date >= "@ + placeholder(n)
}

/// The test that the day is that of placeholder `n` or an earlier one.
pub open spec fn to_clause(n: nat) -> Seq<char> {
    "date <= "@ + placeholder(n)
}

/// The placeholders with the `count` numbers from `first` on.
pub open spec fn placeholders(first: nat, count: nat) -> Seq<Seq<char>> {
    Seq::new(count, |i: int| placeholder(first + i as nat))
}

/// The test that the type is among those of the `count` placeholders from
/// `first` on.
pub open spec fn types_clause(first: nat, count: nat) -> Seq<char> {
    "type IN ("@ + joined(placeholders(first, count), ", "@) + ")"@
}

impl Filters {
    /// Whether the filter on types is in force: given, with a type in it.
    pub open spec fn has_types(self) -> bool {
        self.types matches Some(names) && names.len() > 0
    }

    /// The number of the placeholders of the text filters that are in force.
    pub open spec fn text_params(self) -> nat {
        (if given(self.search) {
            1nat
        } else {
            0nat
        }) + (if given(self.date_from) {
            1nat
        } else {
            0nat
        }) + (if given(self.date_to) {
            1nat
        } else {
            0nat
        })
    }

    /// The tests of the filters that are in force: the search, the first
    /// day, the last day, the types. Each takes the next free placeholder
    /// numbers, from 1.
    pub open spec fn clauses(self) -> Seq<Seq<char>> {
        let search = if given(self.search) {
            seq![search_clause(1)]
        } else {
            Seq::empty()
        };
        let from = if given(self.date_from) {
            seq![from_clause(1 + search.len())]
        } else {
            Seq::empty()
        };
        let to = if given(self.date_to) {
            seq![to_clause(1 + search.len() + from.len())]
        } else {
            Seq::empty()
        };
        let types = if self.has_types() {
            seq![types_clause(1 + search.len() + from.len() + to.len(), self.types->0.len())]
        } else {
            Seq::empty()
        };
        search + from + to + types
    }

    /// The values of the placeholders: the search text between two percent
    /// signs, the first day, the last day, and the types in their order.
    pub open spec fn params(self) -> Seq<Seq<char>> {
        (if given(self.search) {
            seq!["%"@ + self.search->0 + "%"@]
        } else {
            Seq::empty()
        }) + (if given(self.date_from) {
            seq![self.date_from->0]
        } else {
            Seq::empty()
        }) + (if given(self.date_to) {
            seq![self.date_to->0]
        } else {
            Seq::empty()
        }) + (if self.has_types() {
            self.types->0
        } else {
            Seq::empty()
        })
    }

    /// The `WHERE` part of a query: nothing where no filter is in force.
    pub open spec fn where_part(self) -> Seq<char> {
        if self.clauses().len() > 0 {
            " WHERE "@ + joined(self.clauses(), " AND "@)
        } else {
            Seq::empty()
        }
    }

    /// The query of an export: every transaction that passes the filters,
    /// the latest day first and, within a day, the latest written first.
    pub open spec fn export_sql(self) -> Seq<char> {
        select_all() + self.where_part() + " ORDER BY date DESC, created_at DESC"@
    }
}

/// The text of the placeholder with number `n`.
fn placeholder_text(n: u128) -> (r: String)
    ensures
        r@ == placeholder(n as nat),
{
    let mut text = String::from_str("?");
    let number = decimal(n);
    text.append(number.as_str());
    text
}

/// Whether a text filter is in force.
fn is_given(text: &Option<String>) -> (r: bool)
    ensures
        r == given(crate::schedule::text_view(*text)),
{
    match text {
        Some(t) => !t.as_str().is_empty(),
        None => false,
    }
}

/// The tests and the values of the filters that are in force.
fn filter_parts(
    search: &Option<String>,
    date_from: &Option<String>,
    date_to: &Option<String>,
    types: &Option<Vec<String>>,
) -> (r: (Vec<String>, Vec<String>))
    ensures
        texts(r.0@) == filters_of(*search, *date_from, *date_to, *types).clauses(),
        texts(r.1@) == filters_of(*search, *date_from, *date_to, *types).params(),
{
    let ghost filters = filters_of(*search, *date_from, *date_to, *types);
    let mut clauses: Vec<String> = Vec::new();
    let mut params: Vec<String> = Vec::new();
    let mut next: u128 = 1;
    if is_given(search) {
        if let Some(term) = search {
            let mark = placeholder_text(next);
            let mut clause = String::from_str("(LOWER(description) LIKE LOWER(");
            clause.append(mark.as_str());
            clause.append(") OR LOWER(category) LIKE LOWER(");
            clause.append(mark.as_str());
            clause.append(") OR LOWER(recipient) LIKE LOWER(");
            clause.append(mark.as_str());
            clause.append("))");
            clauses.push(clause);
            let mut value = String::from_str("%");
            value.append(term.as_str());
            value.append("%");
            params.push(value);
            next = next + 1;
        }
    }
    if is_given(date_from) {
        if let Some(first) = date_from {
            let mark = placeholder_text(next);
            let mut clause = String::from_str("date >= ");
            clause.append(mark.as_str());
            clauses.push(clause);
            params.push(first.clone());
            next = next + 1;
        }
    }
    if is_given(date_to) {
        if let Some(last) = date_to {
            let mark = placeholder_text(next);
            let mut clause = String::from_str("date <= ");
            clause.append(mark.as_str());
            clauses.push(clause);
            params.push(last.clone());
            next = next + 1;
        }
    }
    let ghost before_types = texts(params@);
    assert(next == 1 + filters.text_params());
    assert(before_types.len() == params@.len());
    if let Some(names) = types {
        if names.len() > 0 {
            let mut marks: Vec<String> = Vec::new();
            let mut i: usize = 0;
            while i < names.len()
                invariant
                    i <= names.len(),
                    next <= 4,
                    marks@.len() == i,
                    params@.len() == before_types.len() + i,
                    texts(marks@) == placeholders(next as nat, i as nat),
                    texts(params@) == before_types + texts(names@).take(i as int),
                decreases names.len() - i,
            {
                let mark = placeholder_text(next + i as u128);
                proof {
                    let grown = texts(marks@.push(mark));
                    let wanted = placeholders(next as nat, (i + 1) as nat);
                    assert(grown.len() == wanted.len());
                    assert forall|j: int| 0 <= j < grown.len() implies grown[j] == wanted[j] by {
                        if j < i {
                            assert(grown[j] == texts(marks@)[j]);
                            assert(texts(marks@)[j] == placeholders(next as nat, i as nat)[j]);
                        } else {
                            assert(grown[j] == mark@);
                        }
                    }
                    assert(grown =~= wanted);
                    let values = texts(params@.push(names@[i as int]));
                    let expected = before_types + texts(names@).take(i + 1);
                    assert(values.len() == expected.len());
                    assert forall|j: int| 0 <= j < values.len() implies values[j] == expected[j] by {
                        if j < params@.len() {
                            assert(values[j] == texts(params@)[j]);
                            assert(texts(params@)[j] == (before_types + texts(names@).take(
                                i as int,
                            ))[j]);
                        }
                    }
                    assert(values =~= expected);
                }
                marks.push(mark);
                params.push(names[i].clone());
                i = i + 1;
            }
            let inner = join(&marks, ", ");
            let mut clause = String::from_str("type IN (");
            clause.append(inner.as_str());
            clause.append(")");
            proof {
                assert(texts(names@).take(names.len() as int) =~= texts(names@));
                assert(texts(clauses@.push(clause)) =~= texts(clauses@).push(clause@));
            }
            clauses.push(clause);
        }
    }
    proof {
        assert(texts(clauses@) =~= filters.clauses());
        assert(texts(params@) =~= filters.params());
    }
    (clauses, params)
}

/// The `WHERE` part for a list of tests.
fn where_text(clauses: &Vec<String>) -> (r: String)
    ensures
        r@ == if clauses@.len() > 0 {
            " WHERE "@ + joined(texts(clauses@), " AND "@)
        } else {
            Seq::<char>::empty()
        },
{
    if clauses.len() > 0 {
        let mut text = String::from_str(" WHERE ");
        let inner = join(clauses, " AND ");
        text.append(inner.as_str());
        text
    } else {
        String::new()
    }
}

/// The query that exports the transactions that pass `filters`.
pub fn export_query(filters: &ExportFiltersPayload) -> (r: Query)
    ensures
        r.sql@ == filters@.export_sql(),
        texts(r.params@) == filters@.params(),
{
    let (clauses, params) = filter_parts(
        &filters.search,
        &filters.date_from,
        &filters.date_to,
        &filters.types,
    );
    let mut sql = String::from_str(
        "SELECT id, user_id, date, amount, currency, description, type, category, is_chomesh, is_recurring, recurring_day_of_month, recipient, created_at, updated_at FROM transactions",
    );
    let condition = where_text(&clauses);
    sql.append(condition.as_str());
    sql.append(" ORDER BY date DESC, created_at DESC");
    Query { sql, params }
}

/// What `str::to_lowercase` returns for a text.
pub uninterp spec fn lowercase_of(text: Seq<char>) -> Seq<char>;

/// `str::to_lowercase`. The result is the named one.
#[verifier::external_body]
fn lowercase(text: &str) -> (r: String)
    ensures
        r@ == lowercase_of(text@),
{
    text.to_lowercase()
}

/// The column that a table is sorted by, for the name of a field in small
/// letters: the column of that name where rows can be sorted by it, and the
/// time of writing otherwise.
pub open spec fn column_for(lowered: Seq<char>) -> Seq<char> {
    if lowered == "date"@ {
        "date"@
    } else if lowered == "amount"@ {
        "amount"@
    } else if lowered == "description"@ {
        "description"@
    } else if lowered == "currency"@ {
        "currency"@
    } else if lowered == "type"@ {
        "type"@
    } else if lowered == "category"@ {
        "category"@
    } else if lowered == "recipient"@ {
        "recipient"@
    } else {
        "created_at"@
    }
}

/// The direction that a table is sorted in, for the word in small letters:
/// ascending for `asc`, descending for anything else.
pub open spec fn direction_for(lowered: Seq<char>) -> Seq<char> {
    if lowered == "asc"@ {
        "ASC"@
    } else {
        "DESC"@
    }
}

/// The column that a table is sorted by, for the name of a field in small
/// letters.
pub fn sort_column(lowered: &str) -> (r: &'static str)
    ensures
        r@ == column_for(lowered@),
{
    if same_text(lowered, "date") {
        "date"
    } else if same_text(lowered, "amount") {
        "amount"
    } else if same_text(lowered, "description") {
        "description"
    } else if same_text(lowered, "currency") {
        "currency"
    } else if same_text(lowered, "type") {
        "type"
    } else if same_text(lowered, "category") {
        "category"
    } else if same_text(lowered, "recipient") {
        "recipient"
    } else {
        "created_at"
    }
}

/// The direction that a table is sorted in, for the word in small letters.
pub fn sort_direction(lowered: &str) -> (r: &'static str)
    ensures
        r@ == direction_for(lowered@),
{
    if same_text(lowered, "asc") {
        "ASC"
    } else {
        "DESC"
    }
}

/// The rows that come before page `page` where a page holds `limit` rows.
/// Pages are counted from 1, and page 0 is taken for page 1.
pub open spec fn rows_before(page: nat, limit: nat) -> nat {
    if page == 0 {
        0
    } else {
        ((page - 1) * limit) as nat
    }
}

/// The order and the page of a table, after the `WHERE` part: the column
/// and direction for the two words in small letters, the page size, and the
/// rows to pass over.
pub open spec fn order_and_page(
    lowered_field: Seq<char>,
    lowered_direction: Seq<char>,
    page: nat,
    limit: nat,
) -> Seq<char> {
    " ORDER BY "@ + column_for(lowered_field) + " "@ + direction_for(lowered_direction) + " "@
        + " LIMIT "@ + decimal_of(limit) + " "@ + " OFFSET "@ + decimal_of(rows_before(page, limit))
        + " "@
}

/// The rows that come before a page.
fn rows_before_page(page: usize, limit: usize) -> (r: u128)
    ensures
        r == rows_before(page as nat, limit as nat),
{
    if page >= 1 {
        let pages: u128 = (page - 1) as u128;
        let size: u128 = limit as u128;
        assert(pages * size <= u128::MAX) by (nonlinear_arith)
            requires
                0 <= pages <= 0xffff_ffff_ffff_ffff,
                0 <= size <= 0xffff_ffff_ffff_ffff,
        ;
        pages * size
    } else {
        0
    }
}

/// The text of the order and the page.
fn order_text(lowered_field: &str, lowered_direction: &str, page: usize, limit: usize) -> (r:
    String)
    ensures
        r@ == order_and_page(lowered_field@, lowered_direction@, page as nat, limit as nat),
{
    let rows = decimal(rows_before_page(page, limit));
    let size = decimal(limit as u128);
    let mut text = String::from_str(" ORDER BY ");
    text.append(sort_column(lowered_field));
    text.append(" ");
    text.append(sort_direction(lowered_direction));
    text.append(" ");
    text.append(" LIMIT ");
    text.append(size.as_str());
    text.append(" ");
    text.append(" OFFSET ");
    text.append(rows.as_str());
    text.append(" ");
    text
}

/// The two queries of a table, for the field and the direction of the
/// order as they read in small letters.
pub fn table_queries_for(
    filters: &TableFiltersPayload,
    pagination: &TablePaginationPayload,
    lowered_field: &str,
    lowered_direction: &str,
) -> (r: TableQueries)
    ensures
        r.count_sql@ == count_all() + filters@.where_part(),
        r.select_sql@ == select_all() + filters@.where_part() + order_and_page(
            lowered_field@,
            lowered_direction@,
            pagination.page as nat,
            pagination.limit as nat,
        ),
        texts(r.params@) == filters@.params(),
{
    let (clauses, params) = filter_parts(
        &filters.search,
        &filters.date_from,
        &filters.date_to,
        &filters.types,
    );
    let condition = where_text(&clauses);
    let mut count_sql = String::from_str("SELECT COUNT(*) FROM transactions");
    count_sql.append(condition.as_str());
    let order = order_text(lowered_field, lowered_direction, pagination.page, pagination.limit);
    let mut select_sql = String::from_str(
        "SELECT id, user_id, date, amount, currency, description, type, category, is_chomesh, is_recurring, recurring_day_of_month, recipient, created_at, updated_at FROM transactions",
    );
    select_sql.append(condition.as_str());
    select_sql.append(order.as_str());
    TableQueries { count_sql, select_sql, params }
}

/// The two queries of a table: the count of the transactions that pass the
/// filters, and the rows of the page that is asked for, in the order that is
/// asked for.
pub fn table_queries(args: &GetFilteredTransactionsArgs) -> (r: TableQueries)
    ensures
        r.count_sql@ == count_all() + args.filters@.where_part(),
        r.select_sql@ == select_all() + args.filters@.where_part() + order_and_page(
            lowercase_of(args.sorting.field@),
            lowercase_of(args.sorting.direction@),
            args.pagination.page as nat,
            args.pagination.limit as nat,
        ),
        texts(r.params@) == args.filters@.params(),
{
    let field = lowercase(args.sorting.field.as_str());
    let direction = lowercase(args.sorting.direction.as_str());
    table_queries_for(&args.filters, &args.pagination, field.as_str(), direction.as_str())
}

/// The fields of a transaction that an update may set. A field that is
/// absent is left as it is.
#[derive(Debug)]
pub struct TransactionUpdatePayload {
    pub date: Option<String>,
    pub amount: Option<Amount>,
    pub currency: Option<String>,
    pub description: Option<String>,
    pub type_str: Option<String>,
    pub category: Option<String>,
    pub is_chomesh: Option<bool>,
    pub is_recurring: Option<bool>,
    pub recurring_day_of_month: Option<i32>,
    pub recipient: Option<String>,
}

/// The value of a placeholder.
#[derive(Debug)]
pub enum SqlValue {
    Text(String),
    Real(Amount),
    Integer(i32),
    Null,
}

/// The mathematical view of a [`SqlValue`].
pub enum Value {
    Text(Seq<char>),
    Real(Amount),
    Integer(int),
    Null,
}

impl View for SqlValue {
    type V = Value;

    open spec fn view(&self) -> Value {
        match self {
            SqlValue::Text(text) => Value::Text(text@),
            SqlValue::Real(amount) => Value::Real(*amount),
            SqlValue::Integer(n) => Value::Integer(*n as int),
            SqlValue::Null => Value::Null,
        }
    }
}

/// The values that a sequence of placeholder values stands for.
pub open spec fn values(params: Seq<SqlValue>) -> Seq<Value> {
    Seq::new(params.len(), |i: int| params[i]@)
}

/// An update and the values of its placeholders, in their order.
#[derive(Debug)]
pub struct UpdateStatement {
    pub sql: String,
    pub params: Vec<SqlValue>,
}

/// The mathematical view of a [`TransactionUpdatePayload`].
pub struct Changes {
    pub date: Option<Seq<char>>,
    pub amount: Option<Amount>,
    pub currency: Option<Seq<char>>,
    pub description: Option<Seq<char>>,
    pub type_str: Option<Seq<char>>,
    pub category: Option<Seq<char>>,
    pub is_chomesh: Option<bool>,
    pub is_recurring: Option<bool>,
    pub recurring_day_of_month: Option<int>,
    pub recipient: Option<Seq<char>>,
}

impl View for TransactionUpdatePayload {
    type V = Changes;

    open spec fn view(&self) -> Changes {
        Changes {
            date: crate::schedule::text_view(self.date),
            amount: self.amount,
            currency: crate::schedule::text_view(self.currency),
            description: crate::schedule::text_view(self.description),
            type_str: crate::schedule::text_view(self.type_str),
            category: crate::schedule::text_view(self.category),
            is_chomesh: self.is_chomesh,
            is_recurring: self.is_recurring,
            recurring_day_of_month: crate::schedule::cap_view(self.recurring_day_of_month),
            recipient: crate::schedule::text_view(self.recipient),
        }
    }
}

/// A column set to a placeholder.
pub open spec fn set_to_placeholder(column: Seq<char>) -> Seq<char> {
    column + " = ?"@
}

/// The setting of a text column: none where the text is absent.
pub open spec fn text_set(column: Seq<char>, text: Option<Seq<char>>) -> Seq<Seq<char>> {
    match text {
        Some(_) => seq![set_to_placeholder(column)],
        None => Seq::empty(),
    }
}

/// The value of a text column that is set.
pub open spec fn text_value(text: Option<Seq<char>>) -> Seq<Value> {
    match text {
        Some(t) => seq![Value::Text(t)],
        None => Seq::empty(),
    }
}

/// One for yes, zero for no.
pub open spec fn flag(b: bool) -> int {
    if b {
        1
    } else {
        0
    }
}

impl Changes {
    /// Whether the day of the month is set, and to what a value: a
    /// transaction that is said not to recur loses its day; otherwise the day
    /// is set where one is given.
    pub open spec fn day_value(self) -> Seq<Value> {
        if self.is_recurring == Some(false) {
            seq![Value::Null]
        } else {
            match self.recurring_day_of_month {
                Some(day) => seq![Value::Integer(day)],
                None => Seq::empty(),
            }
        }
    }

    /// The settings of the update, in the order of their placeholders, and
    /// after them the time of the change.
    pub open spec fn settings(self) -> Seq<Seq<char>> {
        text_set("date"@, self.date) + (match self.amount {
            Some(_) => seq![set_to_placeholder("amount"@)],
            None => Seq::empty(),
        }) + text_set("currency"@, self.currency) + text_set("description"@, self.description)
            + text_set("type"@, self.type_str) + text_set("category"@, self.category) + (
        match self.is_chomesh {
            Some(_) => seq![set_to_placeholder("is_chomesh"@)],
            None => Seq::empty(),
        }) + (match self.is_recurring {
            Some(_) => seq![set_to_placeholder("is_recurring"@)],
            None => Seq::empty(),
        }) + (if self.day_value().len() > 0 {
            seq![set_to_placeholder("recurring_day_of_month"@)]
        } else {
            Seq::empty()
        }) + text_set("recipient"@, self.recipient) + seq!["updated_at = CURRENT_TIMESTAMP"@]
    }

    /// The values of the settings, in the order of their placeholders.
    pub open spec fn set_values(self) -> Seq<Value> {
        text_value(self.date) + (match self.amount {
            Some(amount) => seq![Value::Real(amount)],
            None => Seq::empty(),
        }) + text_value(self.currency) + text_value(self.description) + text_value(self.type_str)
            + text_value(self.category) + (match self.is_chomesh {
            Some(b) => seq![Value::Integer(flag(b))],
            None => Seq::empty(),
        }) + (match self.is_recurring {
            Some(b) => seq![Value::Integer(flag(b))],
            None => Seq::empty(),
        }) + self.day_value() + text_value(self.recipient)
    }

    /// The update of the transaction with the identifier that the last
    /// placeholder stands for.
    pub open spec fn update_sql(self) -> Seq<char> {
        "UPDATE transactions SET "@ + joined(self.settings(), ", "@) + " WHERE id = "@
            + placeholder(self.set_values().len() + 1)
    }
}

/// Adds the setting of a column and its value.
fn push_set(clauses: &mut Vec<String>, params: &mut Vec<SqlValue>, column: &str, value: SqlValue)
    ensures
        texts(final(clauses)@) == texts(old(clauses)@) + seq![set_to_placeholder(column@)],
        values(final(params)@) == values(old(params)@) + seq![value@],
{
    let mut clause = String::from_str(column);
    clause.append(" = ?");
    proof {
        assert(texts(clauses@.push(clause)) =~= texts(clauses@) + seq![clause@]);
        assert(values(params@.push(value)) =~= values(params@) + seq![value@]);
    }
    clauses.push(clause);
    params.push(value);
}

/// Adds the setting of a text column, where the text is there.
fn push_text(
    clauses: &mut Vec<String>,
    params: &mut Vec<SqlValue>,
    column: &str,
    text: &Option<String>,
)
    ensures
        texts(final(clauses)@) == texts(old(clauses)@) + text_set(
            column@,
            crate::schedule::text_view(*text),
        ),
        values(final(params)@) == values(old(params)@) + text_value(
            crate::schedule::text_view(*text),
        ),
{
    match text {
        Some(t) => {
            push_set(clauses, params, column, SqlValue::Text(t.clone()));
        },
        None => {
            proof {
                assert(texts(clauses@) + Seq::<Seq<char>>::empty() =~= texts(clauses@));
                assert(values(params@) + Seq::<Value>::empty() =~= values(params@));
            }
        },
    }
}

/// Adds the setting of a whole-number column, where the number is there.
fn push_number(
    clauses: &mut Vec<String>,
    params: &mut Vec<SqlValue>,
    column: &str,
    number: Option<i32>,
)
    ensures
        texts(final(clauses)@) == texts(old(clauses)@) + (match number {
            Some(_) => seq![set_to_placeholder(column@)],
            None => Seq::empty(),
        }),
        values(final(params)@) == values(old(params)@) + (match number {
            Some(n) => seq![Value::Integer(n as int)],
            None => Seq::empty(),
        }),
{
    match number {
        Some(n) => {
            push_set(clauses, params, column, SqlValue::Integer(n));
        },
        None => {
            proof {
                assert(texts(clauses@) + Seq::<Seq<char>>::empty() =~= texts(clauses@));
                assert(values(params@) + Seq::<Value>::empty() =~= values(params@));
            }
        },
    }
}

/// One for yes, zero for no.
fn flag_of(b: Option<bool>) -> (r: Option<i32>)
    ensures
        r == match b {
            Some(yes) => Some(flag(yes) as i32),
            None => None,
        },
{
    match b {
        Some(true) => Some(1),
        Some(false) => Some(0),
        None => None,
    }
}

/// The settings and values of an update, without the time of the change.
fn update_parts(payload: &TransactionUpdatePayload) -> (r: (Vec<String>, Vec<SqlValue>))
    ensures
        texts(r.0@) + seq!["updated_at = CURRENT_TIMESTAMP"@] == payload@.settings(),
        values(r.1@) == payload@.set_values(),
{
    let mut clauses: Vec<String> = Vec::new();
    let mut params: Vec<SqlValue> = Vec::new();
    proof {
        assert(texts(clauses@) =~= Seq::<Seq<char>>::empty());
        assert(values(params@) =~= Seq::<Value>::empty());
    }
    push_text(&mut clauses, &mut params, "date", &payload.date);
    match payload.amount {
        Some(amount) => {
            push_set(&mut clauses, &mut params, "amount", SqlValue::Real(amount));
        },
        None => {
            proof {
                assert(texts(clauses@) + Seq::<Seq<char>>::empty() =~= texts(clauses@));
                assert(values(params@) + Seq::<Value>::empty() =~= values(params@));
            }
        },
    }
    push_text(&mut clauses, &mut params, "currency", &payload.currency);
    push_text(&mut clauses, &mut params, "description", &payload.description);
    push_text(&mut clauses, &mut params, "type", &payload.type_str);
    push_text(&mut clauses, &mut params, "category", &payload.category);
    push_number(&mut clauses, &mut params, "is_chomesh", flag_of(payload.is_chomesh));
    push_number(&mut clauses, &mut params, "is_recurring", flag_of(payload.is_recurring));
    match payload.is_recurring {
        Some(false) => {
            push_set(&mut clauses, &mut params, "recurring_day_of_month", SqlValue::Null);
        },
        _ => {
            push_number(
                &mut clauses,
                &mut params,
                "recurring_day_of_month",
                payload.recurring_day_of_month,
            );
        },
    }
    push_text(&mut clauses, &mut params, "recipient", &payload.recipient);
    proof {
        assert(Seq::<Seq<char>>::empty() + text_set("date"@, payload@.date) =~= text_set(
            "date"@,
            payload@.date,
        ));
        assert(Seq::<Value>::empty() + text_value(payload@.date) =~= text_value(payload@.date));
    }
    (clauses, params)
}

/// The update that sets, on the transaction with the identifier `id`, the
/// fields that `payload` holds, and the time of the change.
pub fn update_statement(id: &str, payload: &TransactionUpdatePayload) -> (r: UpdateStatement)
    ensures
        r.sql@ == payload@.update_sql(),
        values(r.params@) == payload@.set_values() + seq![Value::Text(id@)],
{
    let (clauses, params) = update_parts(payload);
    let mut clauses = clauses;
    let mut params = params;
    let stamp = String::from_str("updated_at = CURRENT_TIMESTAMP");
    let key = SqlValue::Text(String::from_str(id));
    proof {
        assert(texts(clauses@.push(stamp)) =~= texts(clauses@) + seq![stamp@]);
        assert(values(params@.push(key)) =~= values(params@) + seq![key@]);
    }
    clauses.push(stamp);
    params.push(key);
    let mut sql = String::from_str("UPDATE transactions SET ");
    let settings = join(&clauses, ", ");
    sql.append(settings.as_str());
    sql.append(" WHERE id = ");
    let mark = placeholder_text(params.len() as u128);
    sql.append(mark.as_str());
    UpdateStatement { sql, params }
}

} // verus!

//! The changes that bring the table of transactions of an older book to its
//! present columns.

use crate::text::texts;
use vstd::prelude::*;

verus! {

/// An ASCII capital letter as its small letter, any other character as it
/// is.
pub open spec fn ascii_small(c: char) -> char {
    if 'A' <= c && c <= 'Z' {
        ((c as u32) + 32) as char
    } else {
        c
    }
}

/// A text with its ASCII capital letters as small letters.
pub open spec fn ascii_small_text(text: Seq<char>) -> Seq<char> {
    Seq::new(text.len(), |i: int| ascii_small(text[i]))
}

/// `str::eq_ignore_ascii_case`: whether two texts are the same once their
/// ASCII capital letters are taken as small letters, as the method
/// documents.
#[verifier::external_body]
fn same_name(a: &str, b: &str) -> (r: bool)
    ensures
        r == (ascii_small_text(a@) == ascii_small_text(b@)),
{
    a.eq_ignore_ascii_case(b)
}

/// One of `columns` has the name `name`, whatever the case of the letters.
pub open spec fn has_column(columns: Seq<Seq<char>>, name: Seq<char>) -> bool {
    exists|i: int|
        0 <= i < columns.len() && ascii_small_text(#[trigger] columns[i]) == ascii_small_text(name)
}

/// Whether a table with the columns `columns` has a column `name`.
pub fn column_exists(columns: &Vec<String>, name: &str) -> (r: bool)
    ensures
        r == has_column(texts(columns@), name@),
{
    let mut i: usize = 0;
    while i < columns.len()
        invariant
            i <= columns.len(),
            forall|k: int|
                0 <= k < i ==> ascii_small_text(#[trigger] texts(columns@)[k]) != ascii_small_text(
                    name@,
                ),
        decreases columns.len() - i,
    {
        if same_name(columns[i].as_str(), name) {
            assert(ascii_small_text(texts(columns@)[i as int]) == ascii_small_text(name@));
            return true;
        }
        i = i + 1;
    }
    false
}

/// The statement that adds a column where the table lacks it.
pub open spec fn added(columns: Seq<Seq<char>>, name: Seq<char>, statement: Seq<char>) -> Seq<
    Seq<char>,
> {
    if has_column(columns, name) {
        Seq::empty()
    } else {
        seq![statement]
    }
}

/// The statement that drops a column where the table has it.
pub open spec fn dropped(columns: Seq<Seq<char>>, name: Seq<char>) -> Seq<Seq<char>> {
    if has_column(columns, name) {
        seq!["ALTER TABLE transactions DROP COLUMN "@ + name]
    } else {
        Seq::empty()
    }
}

/// The statements that bring a table of transactions with the columns
/// `columns` to the present ones: the source of a recurring entry and the
/// number of its occurrence are added where they are missing, and the three
/// columns of the older way of recurring are dropped where they are left.
pub open spec fn migration_of(columns: Seq<Seq<char>>) -> Seq<Seq<char>> {
    added(
        columns,
        "source_recurring_id"@,
        "ALTER TABLE transactions ADD COLUMN source_recurring_id TEXT"@,
    ) + added(
        columns,
        "occurrence_number"@,
        "ALTER TABLE transactions ADD COLUMN occurrence_number INTEGER"@,
    ) + dropped(columns, "is_recurring"@) + dropped(columns, "recurring_day_of_month"@) + dropped(
        columns,
        "recurring_total_count"@,
    )
}

fn push_added(statements: &mut Vec<String>, columns: &Vec<String>, name: &str, statement: &str)
    ensures
        texts(final(statements)@) == texts(old(statements)@) + added(
            texts(columns@),
            name@,
            statement@,
        ),
{
    if !column_exists(columns, name) {
        let text = String::from_str(statement);
        proof {
            assert(texts(statements@.push(text)) =~= texts(statements@) + seq![statement@]);
        }
        statements.push(text);
    } else {
        proof {
            assert(texts(statements@) + Seq::<Seq<char>>::empty() =~= texts(statements@));
        }
    }
}

fn push_dropped(statements: &mut Vec<String>, columns: &Vec<String>, name: &str)
    ensures
        texts(final(statements)@) == texts(old(statements)@) + dropped(texts(columns@), name@),
{
    if column_exists(columns, name) {
        let mut text = String::from_str("ALTER TABLE transactions DROP COLUMN ");
        text.append(name);
        proof {
            assert(texts(statements@.push(text)) =~= texts(statements@) + seq![text@]);
        }
        statements.push(text);
    } else {
        proof {
            assert(texts(statements@) + Seq::<Seq<char>>::empty() =~= texts(statements@));
        }
    }
}

/// The statements that bring a table of transactions with the columns
/// `columns` to the present ones, in the order in which they are to run.
pub fn migration_statements(columns: &Vec<String>) -> (r: Vec<String>)
    ensures
        texts(r@) == migration_of(texts(columns@)),
{
    let mut statements: Vec<String> = Vec::new();
    proof {
        assert(texts(statements@) =~= Seq::<Seq<char>>::empty());
    }
    push_added(
        &mut statements,
        columns,
        "source_recurring_id",
        "ALTER TABLE transactions ADD COLUMN source_recurring_id TEXT",
    );
    proof {
        assert(Seq::<Seq<char>>::empty() + added(
            texts(columns@),
            "source_recurring_id"@,
            "ALTER TABLE transactions ADD COLUMN source_recurring_id TEXT"@,
        ) =~= added(
            texts(columns@),
            "source_recurring_id"@,
            "ALTER TABLE transactions ADD COLUMN source_recurring_id TEXT"@,
        ));
    }
    push_added(
        &mut statements,
        columns,
        "occurrence_number",
        "ALTER TABLE transactions ADD COLUMN occurrence_number INTEGER",
    );
    push_dropped(&mut statements, columns, "is_recurring");
    push_dropped(&mut statements, columns, "recurring_day_of_month");
    push_dropped(&mut statements, columns, "recurring_total_count");
    statements
}

} // verus!

//! Ledger rules for a personal book of income, donations and expenses.
//!
//! The heart of the crate is the catch-up engine for recurring obligations.
//! It decides which obligations are due ([`book`]), plans every occurrence
//! that was missed since the last run ([`generator`]), and sequences the
//! writes of each obligation as one unit of work that is committed whole or
//! not at all ([`processor`]). The schedule model is in [`schedule`] and the
//! calendar in [`calendar`].
//!
//! Around the engine stand the texts of the queries on the ledger
//! ([`query`], [`transaction_types`]), the changes of its table ([`schema`]),
//! the months of a chart and the report of a run ([`report`]), and the part
//! of each transaction that counts towards the tithe ([`tithe`]).
//!
//! Nothing here reads or writes a store. The processor names the request to
//! make next and is told how it went; [`book::Book`] is a store in memory
//! against which a whole run can be made and checked.

pub mod book;
pub mod calendar;
pub mod generator;
pub mod processor;
pub mod query;
pub mod report;
pub mod schedule;
pub mod schema;
pub mod text;
pub mod tithe;
pub mod transaction_types;

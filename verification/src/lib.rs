//! Timesheet aggregation.
//!
//! A timesheet is an ordered list of rows, each naming a project, a
//! submission flag, a start, an optional end and notes. The library resolves
//! the rows into records, closes open records with the start of the row that
//! follows, and sums the elapsed time per calendar day and project. Every
//! executable function carries a contract over the mathematical model in
//! `model` and `analyze`, proved by Verus.

pub mod model;
pub mod clock;
pub mod parse;
pub mod submission;
pub mod assoc;
pub mod names;
pub mod ledger;
pub mod analyze;
pub mod render;
pub mod laws;

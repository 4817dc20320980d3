//! A personal expense tracker: a taxonomy of categories and sub-categories,
//! and the transactions that were checked against it.

pub mod batch;
pub mod date;
pub mod expense_tracker;
pub mod laws;
pub mod names;
pub mod resolver;
pub mod table;
pub mod taxonomy;
pub mod transaction;

//! Bookkeeping for a personal expense ledger: dated expense records, the
//! commands that change or query them, and the month filter behind the
//! listings.

pub mod bindings;
pub mod calendar;
pub mod expense;
pub mod filter;
pub mod text;
pub mod commands;
pub mod storage;

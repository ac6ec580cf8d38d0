//! A bounded-retry fetch-and-extract pipeline: the decisions of each round,
//! the bookkeeping of outcomes per target, the aggregate report and the
//! extraction of fields from fetched markup.

pub mod outcome;
pub mod retry;
pub mod report;
pub mod extract;
pub mod links;

//! Budgeting engine: daily spend recommendation, fixed-cost reconciliation
//! and a rule-based coaching message with a bounded memory journal.
pub mod aggregates;
pub mod calendar;
pub mod coach;
pub mod error;
pub mod insight;
pub mod ledger;
pub mod listing;
pub mod memory;
pub mod pools;
pub mod reconciliation;
pub mod seqs;
pub mod text;

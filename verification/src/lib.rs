//! A ledger engine: replays an ordered stream of transaction events against
//! per-client accounts and yields the resulting balances.
//!
//! Amounts are exact decimals ([`amount::Amount`]). A transaction is a
//! [`record::TransactionRecord`]; the rule by which it changes the account of
//! its client is [`account::step`], which [`account::Account::try_apply`]
//! carries out. [`engine::process_records`] replays a whole stream,
//! [`engine::try_apply_record`] one record at a time. [`laws`] holds what is
//! proved of the rule whatever the events, and [`report::output_record`]
//! makes the row that is written for a client at the end.

pub mod account;
pub mod amount;
pub mod engine;
pub mod laws;
pub mod record;
pub mod report;

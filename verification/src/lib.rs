//! A payments ledger: per-client accounts driven by a stream of deposits,
//! withdrawals, disputes, resolves and chargebacks that may arrive out of
//! sequence.
pub mod account;
pub mod amount;
pub mod history;
pub mod ledger;
pub mod model;
pub mod transaction;

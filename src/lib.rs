//! A ledger that replays deposits, withdrawals and the dispute cycle
//! (dispute, resolve, chargeback) against per-client accounts.
pub mod account;
pub mod amount;
pub mod error;
pub mod record;
pub mod transaction_manager;
pub mod laws;

//! An in-memory ledger of named accounts.
//!
//! The ledger applies batches of transfers (transactions) against account
//! balances, collecting fees into a separate system balance, and offers a
//! selection routine that picks the most profitable candidate transaction.
//! Balances, amounts and fees are held in integral minor units of the
//! currency.

pub mod account;
pub mod laws;
pub mod ledger;
pub mod model;
pub mod selector;

pub use account::Account;
pub use account::Transaction;
pub use account::Transfer;
pub use account::TransferError;
pub use ledger::AccountSystem;

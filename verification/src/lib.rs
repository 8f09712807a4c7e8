//! A value-mixing pool: deposits are pooled, delayed and re-emitted so that an
//! incoming deposit cannot be trivially matched with an outgoing payout.
//!
//! Two ledgers are offered. The ticket pool (`contract`) files every deposit
//! under a derived claim key that is later redeemed or exited. The batch pool
//! (`batch`) queues deposits and pays them out together once a randomized
//! threshold is reached.

pub mod batch;
pub mod bytes;
pub mod contract;
pub mod entropy;
pub mod env;
pub mod error;
pub mod ledger;
pub mod msg;
pub mod state;
pub mod threshold;

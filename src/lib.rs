//! Batched payments: a ledger of `address,amount` lines is parsed, split into
//! fixed-size batches, and each batch becomes one list of transfer instructions.
pub mod chain;
pub mod text;
pub mod ledger;
pub mod batch;
pub mod builder;
pub mod driver;
pub mod keys;

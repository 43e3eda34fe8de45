pub mod access;
pub mod error;
pub mod escrow;
pub mod gas_profiling;
pub mod ledger;
pub mod project;

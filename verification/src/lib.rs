//! Accounting core of a fungible-token ledger: balances and allowances, an
//! append-only transaction log, a periodic fee auction, at-most-once transfer
//! notifications, and the per-owner persistent store beneath them.

pub mod arith;
pub mod types;
pub mod table;
pub mod balances;
pub mod allowances;
pub mod ledger;
pub mod auction;
pub mod token;
pub mod notify;
pub mod store;
pub mod queries;

//! A minimal fungible-token ledger: one mint record, a store of holder
//! balances, and authorized mint / burn / transfer operations dispatched
//! from an instruction byte buffer.
//!
//! The central invariant is supply conservation: the mint record's
//! `total_supply` always equals the sum of all balance record amounts.
//! Every operation either fully applies or fails with a typed error and
//! leaves the ledger unchanged.

pub mod records;
pub mod errors;
pub mod accounts;
pub mod token;
pub mod codec;
pub mod dispatch;

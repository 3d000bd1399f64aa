//! Verified numeric core of a leveraged liquid-staking vault.
//!
//! The library covers the parts of the vault whose correctness decides how
//! funds are split between participants:
//!
//! - [`decimal`]: fixed-point decimal arithmetic with explicit precision
//!   tracking;
//! - [`risk`]: the loan-to-value risk model (safe threshold, inaction zone,
//!   adjustment sizing) and the leverage/deleverage planning checks;
//! - [`vault`]: share-based equity accounting for deposits and withdrawals;
//! - [`snapshot`]: per-share-batch snapshots used for profit-and-loss queries;
//! - [`codec`]: the byte encoding of snapshots stored in share token
//!   attributes;
//! - [`transfers`]: validation of the payments returned by the lending and
//!   swap collaborators.
//!
//! Token custody, cross-contract calls, storage and access control live in the
//! surrounding host layer, which hands this library plain values and acts on
//! the plans and errors it returns.

pub mod codec;
pub mod constants;
pub mod decimal;
pub mod errors;
pub mod risk;
pub mod snapshot;
pub mod transfers;
pub mod vault;

//! A weighted fund-distribution engine.
//!
//! The engine holds a configuration (an administrator, a burn address, a
//! developer address, a whitelist that routes protocols to payout addresses
//! and a table of per-protocol weights) and, on demand, splits a balance of
//! one denomination among the configured recipients. Every function is
//! verified against its contract, stated over the views defined next to
//! each type.
//!
//! The engine neither reads balances nor moves money. The caller hands it
//! the balance it has read, receives the payout plan, and reports back how
//! the ledger answered each transfer.

pub mod config;
pub mod distribution;
pub mod error;
pub mod execution;
pub mod fraction;
pub mod store;
pub mod suite;
pub mod weights;
pub mod whitelist;

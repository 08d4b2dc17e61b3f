//! Campaign fund-flow engine of a donation platform: the authoritative
//! on-chain ledger as a state machine, the off-chain mirror that replicates
//! it, the multi-party approval workflow for disbursements, and the audit
//! trail that merges both.

pub mod audit;
pub mod config;
pub mod contract;
pub mod coordinator;
pub mod engine;
pub mod error;
pub mod laws;
pub mod mirror;
pub mod models;
pub mod principal;
pub mod text;

//! Bookkeeping core of a crowdfunding ledger: fundraising campaigns
//! ("companies"), the investments made into them, and the running total of
//! each investor's contribution to each company.
//!
//! Storage and identity checks are collaborators of this library: the state
//! is an ordinary value, and every mutating operation is handed the
//! `Authorization` that the caller's environment established.

pub mod types;
pub mod ledger;
pub mod progress;
pub mod contract;
pub mod laws;

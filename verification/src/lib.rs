//! Quorum credit: loans backed by the stakes of vouchers.
//!
//! The ledger of the contract is a plain value ([`ledger::Ledger`]) and every
//! entry point is a function on it. An entry point reads the ledger and the
//! call that reached it, changes the ledger, and returns the token transfers,
//! events and mints that the host has to carry out, in order.

pub mod arith;
pub mod co_borrowers;
pub mod collateral;
pub mod consistency;
pub mod laws;
pub mod ledger;
pub mod loan;
pub mod queries;
pub mod referral;
pub mod refinance;
pub mod repay;
pub mod request;
pub mod table;
pub mod types;
pub mod vouches;

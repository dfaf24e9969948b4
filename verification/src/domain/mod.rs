//! The operations on records. Each is a function of its arguments alone:
//! the time is an argument, and nothing is read or written besides.

pub mod claim;
pub mod ledger;
pub mod payment;
pub mod policy;
pub mod profile;

//! A minimal betting ledger: wagers are registered under a "teams" label and
//! callers cast yes/no votes that increment one of two counters per wager.

pub mod contract;
pub mod error;
pub mod laws;
pub mod msg;
pub mod response;
pub mod state;

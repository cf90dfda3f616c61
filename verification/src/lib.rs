//! A fungible-asset ledger with delegated spending, verified with Verus.

pub mod account;
pub mod btoken;
pub mod bytes;
pub mod digest_map;
pub mod error;
pub mod host;
pub mod laws;
pub mod model;
pub mod principal;
pub mod rules;
pub mod store;
pub mod units;

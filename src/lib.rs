//! Owner-scoped personal-finance ledger: credential handling, signed session
//! tokens, request identity, and the transaction query and mutation rules.

pub mod auth;
pub mod ledger;
pub mod model;
pub mod query;
pub mod text;
pub mod token;

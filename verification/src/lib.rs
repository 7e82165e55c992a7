//! A proxy account with administrators and spending allowances.
//!
//! Administrators relay any message through the account. Every other account
//! relays only token transfers, and only within the allowance that an
//! administrator gave it.
//!
//! The contract's records and the answers of the chain's address codec are
//! plain values here (`state::Storage` and `api::Api`), so every entry point is
//! a verified function on them.
//!
//! The modules whose names end in `_laws` state what follows for the contract as
//! a whole.

pub mod api;
pub mod coin;
pub mod contract;
pub mod decimal;
pub mod denom;
pub mod error;
pub mod msg;
pub mod state;
pub mod whitelist;

pub mod balance_laws;
pub mod contract_laws;
pub mod entry_laws;
pub mod history_laws;
pub mod spending_laws;
pub mod value_laws;

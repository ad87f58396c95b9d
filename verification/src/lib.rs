//! Replays an ordered ledger of transaction records into per-account balances.
//!
//! Amounts and balances are exact integers counted in the smallest unit of the
//! currency, so every rule of the state machine is stated over mathematical
//! integers and proved without rounding.

pub mod client;
pub mod index;
pub mod record;
pub mod replay;
pub mod transaction;

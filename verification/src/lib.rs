//! A multi-asset conditional escrow ledger.
//!
//! Escrow agreements are kept in a keyed store. Each agreement holds a
//! mixture of native-currency amounts and token-contract amounts, released
//! to a recipient under arbiter authorization, subject to optional
//! height- or time-based expiry. The engine never moves funds itself: on
//! release it computes the transfer instructions the host must carry out.

pub mod contract;
pub mod error;
pub mod msg;
pub mod order;
pub mod state;

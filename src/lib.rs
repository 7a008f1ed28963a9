//! A single-pool token staking ledger: participants stake a token for a bounded
//! time window and earn interest on their principal. Every operation here is a
//! pure decision over plain values; moving tokens and reading the clock are left
//! to the host, which applies the returned transfer and the new account state
//! together or not at all.
pub mod address;
pub mod constants;
pub mod errors;
pub mod state;
pub mod lifecycle;
pub mod instructions;

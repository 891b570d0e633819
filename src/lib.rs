//! A ledger for recurring reward distributions paid to the holders of a
//! fixed collection of tokens: opening cycles, recording claims, paying
//! shares, and rolling unclaimed value over or returning it.
pub mod contract;
pub mod error;
pub mod executes;
pub mod helpers;
pub mod laws;
pub mod msg;
pub mod state;

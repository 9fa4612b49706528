//! Verified custody logic for two value-holding contracts: a pooled staking
//! ledger that pays a proportional reward on withdrawal, and a single-deposit
//! conditional lockup.

pub mod account;
pub mod balances;
pub mod lockup;
pub mod reward;
pub mod staking;
mod wide;

//! A verified account-lifecycle and state-encoding engine for per-owner
//! vaults of encrypted credential entries kept in size-constrained,
//! deterministically addressed ledger accounts.
//!
//! Accounts are modelled as byte buffers with a balance and an owner tag;
//! the host ledger's allocation and transfer primitives become exact balance
//! and buffer arithmetic over that model, and deterministic address
//! derivation is the sole access-control check before any mutation.

pub mod account;
pub mod bytes;
pub mod errors;
pub mod instructions;
pub mod pda;
pub mod processor;
pub mod state;
pub mod utf8;

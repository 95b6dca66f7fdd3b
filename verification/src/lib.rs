//! A multi-token liquidity-pool engine: pool state, lifecycle and
//! authorization rules, and the fixed-point pricing algorithms for
//! deposits, withdrawals and swaps, all over exact integer arithmetic.
//!
//! The crate is pure: every operation is a function from a pool record
//! and a validation context to either an updated record together with
//! the custody movements the token ledger must perform, or an error.
//! The host that owns the accounts and talks to the ledger lives
//! outside this crate.

pub mod error;
pub mod instruction;
pub mod ledger;
pub mod math;
pub mod oracle;
pub mod pool;
pub mod processor;

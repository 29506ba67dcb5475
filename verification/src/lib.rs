//! A staking ledger with epoch-aware reward accrual.
//!
//! A pool keeps a timeline of reward configurations. Each member carries a
//! cursor, the last instant through which its rewards were settled. Every
//! instruction takes the current timestamp as a plain value, settles what the
//! member is owed and then applies its own change, all or nothing.
//!
//! The ledger moves no tokens and reads no clock: a caller hands it the
//! time, and carries out the transfers that an accepted instruction stands
//! for.

pub mod account;
pub mod error;
pub mod instructions;
pub mod registry;
pub mod reward;
pub mod theorems;

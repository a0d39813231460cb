//! A two-option prediction-market ledger kept in fixed-size account
//! buffers, and the instructions that change it.
//!
//! - `codec`: tag bytes, little-endian integers and addresses in buffers.
//! - `collection`: the registry of polls.
//! - `poll`: the Poll record and the wagering rules on its two options.
//! - `tally`: the per-option list of voters and wagers, and the payout.
//! - `instruction`, `command`, `clock`: what an instruction carries.
//! - `account`: the accounts of a call and the checks made on them.
//! - `processor`: the four instructions, each refused whole or done whole.
pub mod codec;
pub mod error;
pub mod collection;
pub mod poll;
pub mod tally;
pub mod instruction;
pub mod command;
pub mod clock;
pub mod account;
pub mod processor;

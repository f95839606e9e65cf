//! Replays an ordered log of account transactions (deposits, withdrawals,
//! disputes, resolutions and chargebacks) and keeps per-account balances.
//!
//! Amounts are fixed-point integers: see [`AMOUNT_SCALE`].

use vstd::prelude::*;

pub mod datatypes;
pub mod laws;
pub mod processor;
pub mod report;
pub mod ring_buffer;

pub use datatypes::{Client, Transaction, TransactionType};
pub use ring_buffer::RingBuffer;

verus! {

/// Number of amount units in one whole unit of currency: amounts and
/// balances carry eight decimal places.
pub const AMOUNT_SCALE: u64 = 100_000_000;

} // verus!

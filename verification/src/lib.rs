//! A deterministic settlement engine: it takes a single-denomination deposit,
//! keeps a protocol fee for the owner, splits the remainder between two
//! recipients, records every credit in a balance ledger, and later pays a
//! credited party out through an outbound transfer instruction.
//!
//! All arithmetic is exact unsigned integer arithmetic with truncating
//! division; the fee and the second share absorb the truncation remainders, so
//! no value is ever created or destroyed by rounding. The ledger never stores
//! a zero balance: a fully drained account is indistinguishable from one that
//! was never credited.

pub mod contract;
pub mod error;
pub mod msg;
pub mod state;

//! The engine's error taxonomy. Every error is surfaced to the caller; none
//! is retried, and a failed operation leaves the ledger untouched.

use vstd::prelude::*;

verus! {

/// Why a Split or Withdraw invocation was rejected.
#[derive(Clone, Debug, PartialEq, Eq)]
pub enum ContractError {
    /// A failure propagated unchanged from an external layer, such as the
    /// identifier validation or the persistence substrate.
    Std { msg: String },
    /// The deposit or requested withdrawal does not consist of exactly one
    /// coin of the fixed token.
    InvalidTokenTransfer,
    /// A withdrawal was attempted by an account with no ledger entry.
    Unauthorized,
    /// A catch-all error carrying a caller-supplied description.
    CustomError { val: String },
    /// The requested withdrawal exceeds the stored balance.
    InvalidAmountError,
}

} // verus!

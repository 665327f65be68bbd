//! The request and response shapes the engine consumes and produces, at the
//! schema level. Wire-format encoding and decoding stay outside the engine.

use vstd::prelude::*;
use crate::state::Coin;

verus! {

/// The invocation context: the authenticated sender and the funds attached to
/// the call.
#[derive(Clone, Debug, PartialEq, Eq)]
pub struct MessageInfo {
    pub sender: String,
    pub funds: Vec<Coin>,
}

/// The initialization request. The owner is taken from the sender of the
/// instantiating call, so the message itself carries nothing.
#[derive(Clone, Debug, PartialEq, Eq)]
pub struct InstantiateMsg {}

/// A state-changing request.
#[derive(Clone, Debug, PartialEq, Eq)]
pub enum ExecuteMsg {
    /// Split the attached deposit between `user1` and `user2` after the
    /// protocol fee.
    Split { user1: String, user2: String },
    /// Withdraw the given amount from the sender's balance, or the entire
    /// balance when no amount is given.
    Withdraw { amount: Option<Coin> },
}

/// A read-only request. Queries never mutate the ledger.
#[derive(Clone, Debug, PartialEq, Eq)]
pub enum QueryMsg {
    GetOwner,
    GetBalance { user: String },
}

/// The answer to `QueryMsg::GetOwner`.
#[derive(Clone, Debug, PartialEq, Eq)]
pub struct GetOwnerResponse {
    pub owner: String,
}

/// The answer to `QueryMsg::GetBalance`.
#[derive(Clone, Debug, PartialEq, Eq)]
pub struct GetBalanceResponse {
    pub balance: Coin,
}

/// The answer to a query, one variant per request kind.
#[derive(Clone, Debug, PartialEq, Eq)]
pub enum QueryAnswer {
    Owner(GetOwnerResponse),
    Balance(GetBalanceResponse),
}

/// An outbound payment directive: pay `to_address` the coin `amount`. Its
/// execution belongs to the external value-transfer layer.
#[derive(Clone, Debug, PartialEq, Eq)]
pub struct TransferInstruction {
    pub to_address: String,
    pub amount: Coin,
}

/// A key-value acknowledgment attribute attached to a response.
#[derive(Clone, Debug, PartialEq, Eq)]
pub struct Attribute {
    pub key: String,
    pub value: String,
}

/// What a successful operation hands back: outbound transfer instructions and
/// acknowledgment attributes.
#[derive(Clone, Debug, PartialEq, Eq)]
pub struct Response {
    pub messages: Vec<TransferInstruction>,
    pub attributes: Vec<Attribute>,
}

} // verus!

//! The settlement operations: instantiation, the fee/split deposit, the
//! withdrawal state transition, and the read-only queries.

use vstd::prelude::*;
use vstd::string::StringExecFns;
use vstd::arithmetic::div_mod::{
    lemma_div_is_ordered, lemma_div_multiples_vanish, lemma_div_nonincreasing,
    lemma_div_pos_is_pos,
};
use crate::error::ContractError;
use crate::msg::{
    Attribute, ExecuteMsg, GetBalanceResponse, GetOwnerResponse, InstantiateMsg, MessageInfo,
    QueryAnswer, QueryMsg, Response, TransferInstruction,
};
use crate::state::{
    spec_credit, spec_debit, token_name, token_string, Coin, Engine, Ledger, State,
};

verus! {

/// Fee numerator: the protocol keeps two parts...
pub const FEE_PERCENT: u128 = 2;

/// ...in every hundred of a deposit.
pub const BASIS_POINT: u128 = 100;

/// The net funds of a deposit after the protocol fee, truncating down.
pub open spec fn net_funds_of(d: int) -> int {
    d * ((BASIS_POINT - FEE_PERCENT) as int) / (BASIS_POINT as int)
}

/// The protocol fee: the deposit minus the net funds, so the fee absorbs the
/// truncation remainder of the fee division.
pub open spec fn fee_of(d: int) -> int {
    d - net_funds_of(d)
}

/// The first recipient's share: half of the net funds, truncating down.
pub open spec fn share1_of(d: int) -> int {
    net_funds_of(d) / 2
}

/// The second recipient's share: the net funds minus the first share, so it
/// absorbs the truncation remainder of the two-way split.
pub open spec fn share2_of(d: int) -> int {
    net_funds_of(d) - share1_of(d)
}

/// A deposit is acceptable exactly when it consists of one single coin of the
/// fixed token.
pub open spec fn valid_deposit(funds: Seq<Coin>) -> bool {
    funds.len() == 1 && funds[0].denom@ == token_name()
}

/// The deposited quantity of a valid deposit.
pub open spec fn deposit_of(funds: Seq<Coin>) -> int {
    funds[0].amount as int
}

/// The ledger after a successful split: the owner is credited the fee, then
/// each recipient their share, in that order.
pub open spec fn split_effect(
    m: Map<Seq<char>, int>,
    owner: Seq<char>,
    user1: Seq<char>,
    user2: Seq<char>,
    d: int,
) -> Map<Seq<char>, int> {
    spec_credit(
        spec_credit(spec_credit(m, owner, fee_of(d)), user1, share1_of(d)),
        user2,
        share2_of(d),
    )
}

/// The balance a query reports for `k`: the stored amount, or zero where no
/// entry exists.
pub open spec fn balance_amount(m: Map<Seq<char>, int>, k: Seq<char>) -> int {
    if m.contains_key(k) {
        m[k]
    } else {
        0
    }
}

/// The machine bounds a split needs: the fee product and the grown ledger
/// total must fit the balance word.
pub open spec fn split_fits(pre: Engine, funds: Seq<Coin>) -> bool {
    valid_deposit(funds) ==> {
        &&& deposit_of(funds) * ((BASIS_POINT - FEE_PERCENT) as int) <= u128::MAX
        &&& pre.ledger.total() + deposit_of(funds) <= u128::MAX
    }
}

/// Everything a split invocation promises: on a valid deposit the ledger is
/// credited fee/share1/share2 and acknowledged without a transfer
/// instruction; otherwise the invocation is rejected as an invalid token
/// transfer and the ledger is left identical.
pub open spec fn split_post(
    pre: Engine,
    post: Engine,
    info: MessageInfo,
    user1: Seq<char>,
    user2: Seq<char>,
    r: Result<Response, ContractError>,
) -> bool {
    &&& post.wf()
    &&& post.state == pre.state
    &&& if valid_deposit(info.funds@) {
        let d = deposit_of(info.funds@);
        &&& r matches Ok(resp) && resp.messages@.len() == 0 && resp.attributes@.len() == 1
            && resp.attributes@[0].key@ == "method"@ && resp.attributes@[0].value@ == "try_split"@
        &&& post.ledger@ == split_effect(pre.ledger@, pre.state.owner@, user1, user2, d)
        &&& post.ledger.total() == pre.ledger.total() + d
    } else {
        &&& r matches Err(e) && e == ContractError::InvalidTokenTransfer
        &&& post.ledger@ == pre.ledger@
        &&& post.ledger.total() == pre.ledger.total()
    }
}

/// A withdrawal is accepted exactly when the sender holds an entry and the
/// requested amount, if any, is of the fixed token and within the balance.
pub open spec fn withdraw_accepts(pre: Engine, sender: Seq<char>, amount: Option<Coin>) -> bool {
    &&& pre.ledger@.contains_key(sender)
    &&& match amount {
        Some(c) => c.denom@ == token_name() && c.amount as int <= pre.ledger@[sender],
        None => true,
    }
}

/// The quantity a withdrawal pays out: the requested amount, or the whole
/// stored balance when none was requested.
pub open spec fn withdraw_payout(pre: Engine, sender: Seq<char>, amount: Option<Coin>) -> int {
    match amount {
        Some(c) => c.amount as int,
        None => pre.ledger@[sender],
    }
}

/// Which error a rejected withdrawal reports, checks in order: missing entry,
/// wrong denomination, excessive amount.
pub open spec fn withdraw_error(pre: Engine, sender: Seq<char>, amount: Option<Coin>) -> ContractError {
    if !pre.ledger@.contains_key(sender) {
        ContractError::Unauthorized
    } else if amount matches Some(c) && c.denom@ != token_name() {
        ContractError::InvalidTokenTransfer
    } else {
        ContractError::InvalidAmountError
    }
}

/// Everything a withdrawal invocation promises: when accepted, the payout is
/// debited (deleting a drained entry) and exactly one transfer instruction to
/// the sender is emitted; when rejected, the stated error comes back and the
/// ledger is left identical.
pub open spec fn withdraw_post(
    pre: Engine,
    post: Engine,
    sender: Seq<char>,
    amount: Option<Coin>,
    r: Result<Response, ContractError>,
) -> bool {
    &&& post.wf()
    &&& post.state == pre.state
    &&& if withdraw_accepts(pre, sender, amount) {
        let pay = withdraw_payout(pre, sender, amount);
        &&& r matches Ok(resp) && resp.messages@.len() == 1
            && resp.messages@[0].to_address@ == sender
            && resp.messages@[0].amount.amount as int == pay
            && resp.messages@[0].amount.denom@ == token_name()
            && resp.attributes@.len() == 2
            && resp.attributes@[0].key@ == "action"@
            && resp.attributes@[0].value@ == "withdraw"@
            && resp.attributes@[1].key@ == "to"@
            && resp.attributes@[1].value@ == sender
        &&& post.ledger@ == spec_debit(pre.ledger@, sender, pay)
        &&& post.ledger.total() == pre.ledger.total() - pay
    } else {
        &&& r matches Err(e) && e == withdraw_error(pre, sender, amount)
        &&& post.ledger@ == pre.ledger@
        &&& post.ledger.total() == pre.ledger.total()
    }
}

/// The fee and both shares are nonnegative, and none exceeds what it is
/// carved from.
pub proof fn lemma_split_bounds(d: int)
    requires
        d >= 0,
    ensures
        0 <= net_funds_of(d) <= d,
        0 <= fee_of(d) <= d,
        0 <= share1_of(d) <= net_funds_of(d),
        0 <= share2_of(d) <= net_funds_of(d),
{
    let p = (BASIS_POINT - FEE_PERCENT) as int;
    let b = BASIS_POINT as int;
    assert(p == 98 && b == 100);
    assert(d * p <= b * d && 0 <= d * p);
    lemma_div_pos_is_pos(d * p, b);
    lemma_div_is_ordered(d * p, b * d, b);
    lemma_div_multiples_vanish(d, b);
    lemma_div_pos_is_pos(net_funds_of(d), 2);
    lemma_div_nonincreasing(net_funds_of(d), 2);
}

/// Conservation: for every deposit, the protocol fee and the two shares sum
/// to exactly the deposit. The second share absorbs the remainder of the
/// two-way split and the fee the remainder of the fee division, so truncation
/// never leaks or creates value.
pub proof fn lemma_split_conservation(d: int)
    ensures
        fee_of(d) + share1_of(d) + share2_of(d) == d,
{
}

/// Draining an account, that is debiting its whole stored balance, removes
/// its ledger entry outright, and the balance subsequently reported for it is
/// zero.
pub proof fn lemma_drain_removes_entry(m: Map<Seq<char>, int>, k: Seq<char>)
    requires
        m.contains_key(k),
    ensures
        spec_debit(m, k, m[k]) == m.remove(k),
        !spec_debit(m, k, m[k]).contains_key(k),
        balance_amount(spec_debit(m, k, m[k]), k) == 0,
{
}

/// A response with no transfer instruction and a single method attribute.
fn ack_response(method: &str) -> (r: Response)
    ensures
        r.messages@.len() == 0,
        r.attributes@.len() == 1,
        r.attributes@[0].key@ == "method"@,
        r.attributes@[0].value@ == method@,
{
    let mut attributes: Vec<Attribute> = Vec::new();
    attributes.push(
        Attribute { key: String::from_str("method"), value: String::from_str(method) },
    );
    Response { messages: Vec::new(), attributes }
}

/// Builds the outbound payment response: one transfer instruction moving
/// `amount` to `to_address`, acknowledged with action and destination
/// attributes.
pub fn send_tokens(to_address: String, amount: Coin, action: &str) -> (r: Response)
    ensures
        r.messages@.len() == 1,
        r.messages@[0].to_address@ == to_address@,
        r.messages@[0].amount == amount,
        r.attributes@.len() == 2,
        r.attributes@[0].key@ == "action"@,
        r.attributes@[0].value@ == action@,
        r.attributes@[1].key@ == "to"@,
        r.attributes@[1].value@ == to_address@,
{
    let to_attr = to_address.clone();
    let mut messages: Vec<TransferInstruction> = Vec::new();
    messages.push(TransferInstruction { to_address, amount });
    let mut attributes: Vec<Attribute> = Vec::new();
    attributes.push(
        Attribute { key: String::from_str("action"), value: String::from_str(action) },
    );
    attributes.push(Attribute { key: String::from_str("to"), value: to_attr });
    Response { messages, attributes }
}

/// Creates an engine whose owner is the instantiating sender and whose ledger
/// is empty.
pub fn instantiate(info: &MessageInfo, _msg: InstantiateMsg) -> (r: (Engine, Response))
    ensures
        r.0.wf(),
        r.0.state.owner@ == info.sender@,
        r.0.ledger@ == Map::<Seq<char>, int>::empty(),
        r.0.ledger.total() == 0,
        r.1.messages@.len() == 0,
        r.1.attributes@.len() == 2,
        r.1.attributes@[0].key@ == "method"@,
        r.1.attributes@[0].value@ == "instantiate"@,
        r.1.attributes@[1].key@ == "owner"@,
        r.1.attributes@[1].value@ == info.sender@,
{
    let engine = Engine {
        state: State { owner: info.sender.clone() },
        ledger: Ledger::new(),
    };
    let mut attributes: Vec<Attribute> = Vec::new();
    attributes.push(
        Attribute { key: String::from_str("method"), value: String::from_str("instantiate") },
    );
    attributes.push(Attribute { key: String::from_str("owner"), value: info.sender.clone() });
    (engine, Response { messages: Vec::new(), attributes })
}

/// Validates the attached deposit, carves it into fee and two shares, and
/// credits the owner and both recipients. All checks precede the first ledger
/// write, so a rejected split leaves every entry untouched.
pub fn try_split(
    engine: &mut Engine,
    info: &MessageInfo,
    user1: String,
    user2: String,
) -> (r: Result<Response, ContractError>)
    requires
        old(engine).wf(),
        split_fits(*old(engine), info.funds@),
    ensures
        split_post(*old(engine), *final(engine), *info, user1@, user2@, r),
{
    if info.funds.len() != 1 {
        return Err(ContractError::InvalidTokenTransfer);
    }
    let token = token_string();
    if !(info.funds[0].denom == token) {
        return Err(ContractError::InvalidTokenTransfer);
    }
    let deposit = info.funds[0].amount;
    proof {
        lemma_split_bounds(deposit as int);
    }
    let net_funds = deposit * (BASIS_POINT - FEE_PERCENT) / BASIS_POINT;
    let fee = deposit - net_funds;
    let share1 = net_funds / 2;
    let share2 = net_funds - share1;
    engine.ledger.credit(&engine.state.owner, fee);
    engine.ledger.credit(&user1, share1);
    engine.ledger.credit(&user2, share2);
    Ok(ack_response("try_split"))
}

/// Validates the sender's withdrawal against their ledger entry, debits the
/// payout (deleting the entry when it reaches zero), and emits the transfer
/// instruction. All checks precede the debit, so a rejected withdrawal leaves
/// every entry untouched.
pub fn try_withdraw(
    engine: &mut Engine,
    info: &MessageInfo,
    amount: Option<Coin>,
) -> (r: Result<Response, ContractError>)
    requires
        old(engine).wf(),
    ensures
        withdraw_post(*old(engine), *final(engine), info.sender@, amount, r),
{
    let stored = engine.ledger.get(&info.sender);
    let user_balance = match stored {
        Some(b) => b,
        None => {
            return Err(ContractError::Unauthorized);
        },
    };
    let payout: Coin = match amount {
        Some(c) => {
            let token = token_string();
            if !(c.denom == token) {
                return Err(ContractError::InvalidTokenTransfer);
            }
            if c.amount > user_balance.balance.amount {
                return Err(ContractError::InvalidAmountError);
            }
            c
        },
        None => user_balance.balance,
    };
    engine.ledger.debit(&info.sender, payout.amount);
    Ok(send_tokens(info.sender.clone(), payout, "withdraw"))
}

/// Routes a state-changing request to the split or withdraw operation.
pub fn execute(
    engine: &mut Engine,
    info: &MessageInfo,
    msg: ExecuteMsg,
) -> (r: Result<Response, ContractError>)
    requires
        old(engine).wf(),
        msg is Split ==> split_fits(*old(engine), info.funds@),
    ensures
        msg matches ExecuteMsg::Split { user1, user2 } ==> split_post(
            *old(engine),
            *final(engine),
            *info,
            user1@,
            user2@,
            r,
        ),
        msg matches ExecuteMsg::Withdraw { amount } ==> withdraw_post(
            *old(engine),
            *final(engine),
            info.sender@,
            amount,
            r,
        ),
{
    match msg {
        ExecuteMsg::Split { user1, user2 } => try_split(engine, info, user1, user2),
        ExecuteMsg::Withdraw { amount } => try_withdraw(engine, info, amount),
    }
}

/// The stored balance of `user`, or a zero balance of the fixed token where
/// no entry exists; never an error.
pub fn query_balance(engine: &Engine, user: String) -> (r: GetBalanceResponse)
    requires
        engine.wf(),
    ensures
        r.balance.amount as int == balance_amount(engine.ledger@, user@),
        r.balance.denom@ == token_name(),
{
    match engine.ledger.get(&user) {
        Some(b) => GetBalanceResponse { balance: b.balance },
        None => GetBalanceResponse { balance: Coin { amount: 0, denom: token_string() } },
    }
}

/// The singleton owner identifier.
pub fn query_owner(engine: &Engine) -> (r: GetOwnerResponse)
    ensures
        r.owner@ == engine.state.owner@,
{
    GetOwnerResponse { owner: engine.state.owner.clone() }
}

/// Routes a read-only request. Queries never mutate the engine.
pub fn query(engine: &Engine, msg: QueryMsg) -> (r: QueryAnswer)
    requires
        engine.wf(),
    ensures
        msg is GetOwner ==> (r matches QueryAnswer::Owner(o) && o.owner@ == engine.state.owner@),
        msg matches QueryMsg::GetBalance { user } ==> (r matches QueryAnswer::Balance(b)
            && b.balance.amount as int == balance_amount(engine.ledger@, user@)
            && b.balance.denom@ == token_name()),
{
    match msg {
        QueryMsg::GetOwner => QueryAnswer::Owner(query_owner(engine)),
        QueryMsg::GetBalance { user } => QueryAnswer::Balance(query_balance(engine, user)),
    }
}

} // verus!

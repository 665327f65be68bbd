use funds_split::contract::{execute, instantiate, query};
use funds_split::msg::{ExecuteMsg, InstantiateMsg, MessageInfo, QueryAnswer, QueryMsg};
use funds_split::state::{Coin, Engine};

fn coins(amount: u128, denom: &str) -> Vec<Coin> {
    vec![Coin { denom: denom.to_string(), amount }]
}

fn mock_info(sender: &str, funds: Vec<Coin>) -> MessageInfo {
    MessageInfo { sender: sender.to_string(), funds }
}

fn balance_of(engine: &Engine, user: &str) -> u128 {
    match query(engine, QueryMsg::GetBalance { user: user.to_string() }) {
        QueryAnswer::Balance(b) => b.balance.amount,
        _ => panic!("expected a balance answer"),
    }
}

#[test]
fn proper_initialization() {
    let info = mock_info("creator", coins(1000, "earth"));

    let (_engine, res) = instantiate(&info, InstantiateMsg {});
    assert_eq!(0, res.messages.len());
}

#[test]
fn read_owner() {
    let info = mock_info("creator", coins(1000, "earth"));

    let (engine, res) = instantiate(&info, InstantiateMsg {});
    assert_eq!(0, res.messages.len());

    let value = match query(&engine, QueryMsg::GetOwner) {
        QueryAnswer::Owner(o) => o,
        _ => panic!("expected an owner answer"),
    };
    assert_eq!("creator".to_string(), value.owner);
}

#[test]
fn split() {
    let info = mock_info("creator", coins(1000, "usei"));

    let (mut engine, res) = instantiate(&info, InstantiateMsg {});
    assert_eq!(0, res.messages.len());

    let msg = ExecuteMsg::Split {
        user1: "bob".to_string(),
        user2: "alice".to_string(),
    };
    let info = mock_info("creator", coins(1000, "usei"));

    let res = execute(&mut engine, &info, msg).unwrap();

    assert_eq!(0, res.messages.len());
}

#[test]
fn read_balances() {
    let info = mock_info("creator", coins(1000, "usei"));

    let (mut engine, res) = instantiate(&info, InstantiateMsg {});
    assert_eq!(0, res.messages.len());

    let msg = ExecuteMsg::Split {
        user1: "bob".to_string(),
        user2: "alice".to_string(),
    };
    let info = mock_info("creator", coins(1000, "usei"));

    let _res = execute(&mut engine, &info, msg).unwrap();

    assert_eq!(1000u128 * (100 - 2) / (2 * 100), balance_of(&engine, "bob"));
}

#[test]
fn other_token_not_allowed() {
    let info = mock_info("creator", coins(1000, "usei"));

    let (mut engine, res) = instantiate(&info, InstantiateMsg {});
    assert_eq!(0, res.messages.len());

    let msg = ExecuteMsg::Split {
        user1: "bob".to_string(),
        user2: "alice".to_string(),
    };
    let info = mock_info("creator", coins(1000, "BTC"));

    assert!(execute(&mut engine, &info, msg).is_err());
}

#[test]
fn withdraw_balance_token_amount() {
    let info = mock_info("creator", coins(1000, "usei"));

    let (mut engine, res) = instantiate(&info, InstantiateMsg {});
    assert_eq!(0, res.messages.len());

    let msg = ExecuteMsg::Split {
        user1: "bob".to_string(),
        user2: "alice".to_string(),
    };
    let info = mock_info("creator", coins(1000, "usei"));

    let _res = execute(&mut engine, &info, msg).unwrap();

    let msg = ExecuteMsg::Withdraw {
        amount: Some(Coin { amount: 400, denom: "usei".to_string() }),
    };
    let info = mock_info("bob", coins(1000, "usei"));

    let _res = execute(&mut engine, &info, msg).unwrap();

    let bob_balance = 1000u128 * (100 - 2) / (2 * 100) - 400;
    assert_eq!(bob_balance, balance_of(&engine, "bob"));
}

#[test]
fn withdraw_balance_token_full_amount() {
    let info = mock_info("creator", coins(1000, "usei"));

    let (mut engine, res) = instantiate(&info, InstantiateMsg {});
    assert_eq!(0, res.messages.len());

    let msg = ExecuteMsg::Split {
        user1: "bob".to_string(),
        user2: "alice".to_string(),
    };
    let info = mock_info("creator", coins(1000, "usei"));

    let _res = execute(&mut engine, &info, msg).unwrap();

    let msg = ExecuteMsg::Withdraw { amount: None };
    let info = mock_info("bob", coins(1000, "usei"));

    let _res = execute(&mut engine, &info, msg).unwrap();

    assert_eq!(0, balance_of(&engine, "bob"));
}

#[test]
fn accumulate_owner_fees() {
    let info = mock_info("creator", coins(1000, "usei"));

    let (mut engine, res) = instantiate(&info, InstantiateMsg {});
    assert_eq!(0, res.messages.len());

    let msg = ExecuteMsg::Split {
        user1: "bob".to_string(),
        user2: "alice".to_string(),
    };
    let info = mock_info("creator", coins(1000, "usei"));

    let _res = execute(&mut engine, &info, msg).unwrap();

    let fees = 1000u128 * 2 / 100;

    assert_eq!(fees, balance_of(&engine, "creator"));
}

#[test]
fn collect_owner_fees() {
    let info = mock_info("creator", coins(1000, "usei"));

    let (mut engine, res) = instantiate(&info, InstantiateMsg {});
    assert_eq!(0, res.messages.len());

    let msg = ExecuteMsg::Split {
        user1: "bob".to_string(),
        user2: "alice".to_string(),
    };
    let info = mock_info("creator", coins(1000, "usei"));

    let _res = execute(&mut engine, &info, msg).unwrap();

    let msg = ExecuteMsg::Withdraw { amount: None };
    let info = mock_info("creator", coins(1000, "usei"));

    let _res = execute(&mut engine, &info, msg).unwrap();

    assert_eq!(0, balance_of(&engine, "creator"));
}

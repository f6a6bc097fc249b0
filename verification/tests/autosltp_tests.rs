//! The order-protection contract exercised end to end.

use autorujira::autosltp::contract::{execute, instantiate, query, reply};
use autorujira::autosltp::fin::{Denoms, Price, Side};
use autorujira::autosltp::msg::{ExecuteMsg, InstantiateMsg, QueryMsg};
use autorujira::autosltp::state::{PoolKey, PoolType, State};
use autorujira::host::{
    Attribute, Coin, Env, Event, MessageInfo, OutMsg, Reply, SubMsgResult,
};

fn env() -> Env {
    Env {
        contract_address: "autosltp".to_string(),
        time_nanos: 1_571_797_419_879_305_533,
    }
}

fn info(sender: &str, funds: Vec<Coin>) -> MessageInfo {
    MessageInfo {
        sender: sender.to_string(),
        funds,
    }
}

fn setup() -> State {
    let mut state = State::new();
    instantiate(
        &mut state,
        InstantiateMsg {
            owner: "owner".to_string(),
        },
    )
    .unwrap();
    execute(
        &mut state,
        info("owner", vec![]),
        ExecuteMsg::AddMarket {
            fin_contract_address: "fin1".to_string(),
            denoms: Denoms {
                base: "ubase".to_string(),
                quote: "uquote".to_string(),
            },
        },
    )
    .unwrap();
    state
}

fn place_order_msg(amount: u128, price_sl: Option<u128>, price_tp: Option<u128>) -> ExecuteMsg {
    ExecuteMsg::PlaceOrder {
        fin_contract_address: "fin1".to_string(),
        side: Side::Base,
        price: Price::Fixed(2_000_000_000_000_000_000),
        amount,
        price_sl,
        price_tp,
    }
}

fn base_coin(amount: u128) -> Coin {
    Coin {
        denom: "ubase".to_string(),
        amount,
    }
}

#[test]
fn add_market_is_owner_only() {
    let mut state = setup();
    let err = execute(
        &mut state,
        info("mallory", vec![]),
        ExecuteMsg::AddMarket {
            fin_contract_address: "fin2".to_string(),
            denoms: Denoms {
                base: "a".to_string(),
                quote: "b".to_string(),
            },
        },
    )
    .unwrap_err();
    assert_eq!(err, "Unauthorized");
}

#[test]
fn place_order_validates_funds() {
    let mut state = setup();
    let err = execute(&mut state, info("user1", vec![]), place_order_msg(100, None, None))
        .unwrap_err();
    assert_eq!(err, "Must send exactly one coin");

    let wrong_denom = Coin {
        denom: "uquote".to_string(),
        amount: 100,
    };
    let err = execute(
        &mut state,
        info("user1", vec![wrong_denom]),
        place_order_msg(100, None, None),
    )
    .unwrap_err();
    assert_eq!(err, "Must send base coin");

    let err = execute(
        &mut state,
        info("user1", vec![base_coin(99)]),
        place_order_msg(100, None, None),
    )
    .unwrap_err();
    assert_eq!(err, "Must send the correct amount");
}

#[test]
fn place_order_submits_and_rejects_duplicates() {
    let mut state = setup();
    let res = execute(
        &mut state,
        info("user1", vec![base_coin(100)]),
        place_order_msg(100, Some(1_500_000_000_000_000_000), None),
    )
    .unwrap();
    assert_eq!(res.messages.len(), 1);
    match &res.messages[0].msg {
        OutMsg::Wasm { contract_addr, .. } => assert_eq!(contract_addr, "fin1"),
        _ => panic!("wrong message kind"),
    }

    let err = execute(
        &mut state,
        info("user1", vec![base_coin(100)]),
        place_order_msg(100, Some(1_500_000_000_000_000_000), None),
    )
    .unwrap_err();
    assert_eq!(err, "User already has an order at that price");
}

#[test]
fn protection_triggers_at_the_oracle_price() {
    let mut state = setup();
    // The stop-loss bound (1.5) is above the stubbed oracle price of 1.0,
    // so the protection triggers.
    execute(
        &mut state,
        info("user1", vec![base_coin(100)]),
        place_order_msg(100, Some(1_500_000_000_000_000_000), None),
    )
    .unwrap();
    let res = execute(
        &mut state,
        info("keeper", vec![]),
        ExecuteMsg::ExecuteSlTp {
            user_address: "user1".to_string(),
            fin_contract_address: "fin1".to_string(),
            side: Side::Base,
            price: Price::Fixed(2_000_000_000_000_000_000),
            claim_amount: 200,
        },
    )
    .unwrap();
    assert_eq!(res.messages.len(), 2);
    assert_eq!(res.messages[1].id, 200);

    // A take-profit bound above the oracle price does not trigger.
    let mut other = setup();
    execute(
        &mut other,
        info("user1", vec![base_coin(100)]),
        place_order_msg(100, None, Some(3_000_000_000_000_000_000)),
    )
    .unwrap();
    let err = execute(
        &mut other,
        info("keeper", vec![]),
        ExecuteMsg::ExecuteSlTp {
            user_address: "user1".to_string(),
            fin_contract_address: "fin1".to_string(),
            side: Side::Base,
            price: Price::Fixed(2_000_000_000_000_000_000),
            claim_amount: 200,
        },
    )
    .unwrap_err();
    assert_eq!(err, "SL/TP not reached yet");
}

#[test]
fn swap_reply_forwards_proceeds_less_fee() {
    let mut state = setup();
    execute(
        &mut state,
        info("user1", vec![base_coin(100)]),
        place_order_msg(100, Some(1_500_000_000_000_000_000), None),
    )
    .unwrap();
    execute(
        &mut state,
        info("keeper", vec![]),
        ExecuteMsg::ExecuteSlTp {
            user_address: "user1".to_string(),
            fin_contract_address: "fin1".to_string(),
            side: Side::Base,
            price: Price::Fixed(2_000_000_000_000_000_000),
            claim_amount: 200,
        },
    )
    .unwrap();

    // The host reports 500 uquote received by this contract.
    let events = vec![Event {
        ty: "coin_received".to_string(),
        attributes: vec![
            Attribute {
                key: "receiver".to_string(),
                value: "autosltp".to_string(),
            },
            Attribute {
                key: "amount".to_string(),
                value: "500uquote".to_string(),
            },
        ],
    }];
    let res = reply(
        &mut state,
        &env(),
        Reply {
            id: 200,
            result: SubMsgResult::Success { events },
        },
    )
    .unwrap();
    assert_eq!(res.messages.len(), 1);
    match &res.messages[0].msg {
        OutMsg::Bank { to_address, amount } => {
            assert_eq!(to_address, "user1");
            assert_eq!(amount.len(), 1);
            assert_eq!(amount[0].denom, "uquote");
            assert_eq!(amount[0].amount, 499);
        }
        _ => panic!("wrong message kind"),
    }
}

#[test]
fn reply_rejects_unknown_handles_and_empty_receipts() {
    let mut state = setup();
    let err = reply(
        &mut state,
        &env(),
        Reply {
            id: 7,
            result: SubMsgResult::Success { events: vec![] },
        },
    )
    .unwrap_err();
    assert_eq!(err, "unknown reply id");

    let err = reply(
        &mut state,
        &env(),
        Reply {
            id: 200,
            result: SubMsgResult::Success { events: vec![] },
        },
    )
    .unwrap_err();
    assert_eq!(err, "no received coins");
}

#[test]
fn pool_keys_and_types_round_trip() {
    let key = PoolKey::new(Side::Quote, Price::Oracle(5));
    assert_eq!(key.side, Side::Quote);
    assert_eq!(key.price, Price::Oracle(5));

    assert_eq!(PoolType::Fixed.key(), 0);
    assert_eq!(PoolType::Oracle.key(), 1);
    assert_eq!(PoolType::from_vec(vec![0]), Ok(PoolType::Fixed));
    assert_eq!(PoolType::from_vec(vec![1]), Ok(PoolType::Oracle));
    assert!(PoolType::from_vec(vec![9]).is_err());
    assert!(PoolType::from_vec(vec![]).is_err());
}

#[test]
fn config_query_reports_the_owner() {
    let state = setup();
    let res = query(&state, QueryMsg::Config {});
    assert_eq!(res.owner, "owner");
}

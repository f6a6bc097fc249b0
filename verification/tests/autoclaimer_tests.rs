//! The auto-claimer exercised end to end: dispatch, settlement, and queries,
//! with the host's part (performing operations, delivering replies, answering
//! balance queries) played by the tests.

use autorujira::autoclaimer::contract::{execute, instantiate, query};
use autorujira::autoclaimer::msg::{
    ExecuteMsg, InstantiateMsg, ProtocolConfig, ProtocolStrategy, QueryMsg, QueryResponse,
    UpdateConfigMsg,
};
use autorujira::autoclaimer::settle::reply;
use autorujira::autoclaimer::state::State;
use autorujira::autoclaimer::subs::query_get_subscribed_protocols;
use autorujira::common::StakingProvider;
use autorujira::host::{Bank, BankEntry, Coin, Env, Event, MessageInfo, Reply, Response, SubMsgResult};

/// One percent as 18-decimal atomics.
const ONE_PERCENT: u128 = 10_000_000_000_000_000;

fn env() -> Env {
    Env {
        contract_address: "autoclaimer".to_string(),
        time_nanos: 1_571_797_419_879_305_533,
    }
}

fn empty_bank() -> Bank {
    Bank { balances: vec![] }
}

fn bank(entries: Vec<(&str, &str, u128)>) -> Bank {
    Bank {
        balances: entries
            .into_iter()
            .map(|(a, d, n)| BankEntry {
                address: a.to_string(),
                denom: d.to_string(),
                amount: n,
            })
            .collect(),
    }
}

fn info(sender: &str) -> MessageInfo {
    MessageInfo {
        sender: sender.to_string(),
        funds: vec![],
    }
}

fn setup() -> State {
    let mut state = State::new();
    let msg = InstantiateMsg {
        owner: "owner".to_string(),
        max_parallel_claims: 5,
        protocol_configs: vec![
            ProtocolConfig {
                protocol: "protocol1".to_string(),
                fee_percentage: ONE_PERCENT,
                fee_address: "feeaddress1".to_string(),
                strategy: ProtocolStrategy::ClaimAndStakeDaoDaoCwRewards {
                    provider: StakingProvider::CW_REWARDS,
                    claim_contract_address: "claim_contract_success".to_string(),
                    stake_contract_address: "stake_contract".to_string(),
                    reward_denom: "token1".to_string(),
                },
            },
            ProtocolConfig {
                protocol: "protocol2".to_string(),
                fee_percentage: ONE_PERCENT,
                fee_address: "feeaddress2".to_string(),
                strategy: ProtocolStrategy::ClaimAndStakeDaoDaoCwRewards {
                    provider: StakingProvider::CW_REWARDS,
                    claim_contract_address: "claim_contract_failure".to_string(),
                    stake_contract_address: "stake_contract".to_string(),
                    reward_denom: "token2".to_string(),
                },
            },
            ProtocolConfig {
                protocol: "FIN".to_string(),
                fee_percentage: 0,
                fee_address: "".to_string(),
                strategy: ProtocolStrategy::ClaimOnlyFIN {
                    supported_markets: vec!["fin_contract".to_string()],
                },
            },
        ],
    };
    instantiate(&mut state, msg).unwrap();
    state
}

fn subscribe_user(state: &mut State, user: &str, protocols: Vec<&str>) {
    let msg = ExecuteMsg::Subscribe {
        protocols: protocols.into_iter().map(|p| p.to_string()).collect(),
    };
    execute(state, &empty_bank(), info(user), msg).unwrap();
}

fn attr_value(event: &Event, key: &str) -> Option<String> {
    event
        .attributes
        .iter()
        .find(|a| a.key == key)
        .map(|a| a.value.clone())
}

fn ok_reply(id: u64) -> Reply {
    Reply {
        id,
        result: SubMsgResult::Success { events: vec![] },
    }
}

fn err_reply(id: u64, error: &str) -> Reply {
    Reply {
        id,
        result: SubMsgResult::Failure {
            error: error.to_string(),
        },
    }
}

fn last_autoclaim_of(state: &State, user: &str, protocol: &str) -> Option<Option<u64>> {
    let res = query_get_subscribed_protocols(state, user.to_string());
    res.protocols
        .iter()
        .find(|p| p.protocol == protocol)
        .map(|p| p.last_autoclaim)
}

#[test]
fn test_claim_only_fin() {
    let mut state = setup();
    subscribe_user(&mut state, "user1", vec!["FIN"]);

    let users_contracts = vec![("user1".to_string(), "fin_contract".to_string())];
    let claim_only_msg = ExecuteMsg::ClaimOnly {
        protocol: "FIN".to_string(),
        users_contracts,
    };
    let res = execute(&mut state, &empty_bank(), info("owner"), claim_only_msg);
    assert!(res.is_ok(), "Execution failed: {:?}", res.err().map(|e| e.message()));
    let res = res.unwrap();
    assert_eq!(res.messages.len(), 1);
    assert_eq!(res.messages[0].id, 4000);

    // The host performs the withdraw and delivers its reply.
    let reply_res = reply(&mut state, &empty_bank(), &env(), ok_reply(4000)).unwrap();

    let mut claim_ok_found = false;
    for event in &reply_res.events {
        if event.ty == "autorujira.autoclaimer" {
            let action = attr_value(event, "action");
            let result = attr_value(event, "result");
            if action.as_deref() == Some("claim") && result.as_deref() == Some("ok") {
                claim_ok_found = true;
            }
        }
    }
    assert!(claim_ok_found, "claim ok event for FIN not found");

    assert!(
        last_autoclaim_of(&state, "user1", "FIN").unwrap().is_some(),
        "last_autoclaim should be updated for FIN"
    );
}

#[test]
fn test_unauthorized_claim_only_fin() {
    let mut state = setup();
    subscribe_user(&mut state, "user1", vec!["FIN"]);

    let users_contracts = vec![("user1".to_string(), "fin_contract".to_string())];
    let claim_only_msg = ExecuteMsg::ClaimOnly {
        protocol: "FIN".to_string(),
        users_contracts,
    };
    let err = execute(&mut state, &empty_bank(), info("user1"), claim_only_msg).unwrap_err();
    assert!(err
        .message()
        .contains("You have no permissions to execute this function"));
}

#[test]
fn test_claim_and_stake_with_failures() {
    let mut state = setup();
    subscribe_user(&mut state, "user1", vec!["protocol1", "protocol2"]);

    // Before dispatch the user holds no reward tokens.
    let claim_and_stake_msg = ExecuteMsg::ClaimAndStake {
        users_protocols: vec![(
            "user1".to_string(),
            vec!["protocol1".to_string(), "protocol2".to_string()],
        )],
    };
    let res = execute(&mut state, &empty_bank(), info("owner"), claim_and_stake_msg);
    assert!(res.is_ok(), "Execution failed: {:?}", res.err().map(|e| e.message()));
    let res = res.unwrap();
    assert_eq!(res.messages.len(), 2);
    assert_eq!(res.messages[0].id, 1000);
    assert_eq!(res.messages[1].id, 1001);

    // The host settles both claims: protocol1's contract paid out 1000
    // token1, protocol2's contract failed.
    let mut all_events: Vec<Event> = Vec::new();
    let bank_after = bank(vec![("user1", "token1", 1000)]);
    let r1: Response = reply(&mut state, &bank_after, &env(), ok_reply(1000)).unwrap();
    assert_eq!(r1.messages.len(), 2);
    assert_eq!(r1.messages[0].id, 3000);
    assert_eq!(r1.messages[1].id, 2000);
    all_events.extend(r1.events);
    let r2 = reply(&mut state, &bank_after, &env(), err_reply(1001, "Mock claim contract failure"))
        .unwrap();
    all_events.extend(r2.events);
    // The follow-up stages settle successfully.
    let r3 = reply(&mut state, &bank_after, &env(), ok_reply(2000)).unwrap();
    all_events.extend(r3.events);
    let r4 = reply(&mut state, &bank_after, &env(), ok_reply(3000)).unwrap();
    all_events.extend(r4.events);

    let mut claim_failed_found = false;
    let mut claim_ok_found = false;
    let mut stake_ok_found = false;
    let mut charge_fee_ok_found = false;
    for event in &all_events {
        if event.ty == "autorujira.autoclaimer" {
            let action = attr_value(event, "action");
            let protocol = attr_value(event, "protocol");
            let result = attr_value(event, "result");
            let msg_id = attr_value(event, "msg_id");

            if action.as_deref() == Some("claim")
                && protocol.as_deref() == Some("protocol2")
                && result.as_deref() == Some("failed")
            {
                claim_failed_found = true;
            }
            if action.as_deref() == Some("claim")
                && protocol.as_deref() == Some("protocol1")
                && result.as_deref() == Some("ok")
            {
                claim_ok_found = true;
            }
            if action.as_deref() == Some("charge_fee")
                && result.as_deref() == Some("ok")
                && msg_id.as_deref() == Some("3000")
            {
                charge_fee_ok_found = true;
            }
            if action.as_deref() == Some("stake")
                && result.as_deref() == Some("ok")
                && msg_id.as_deref() == Some("2000")
            {
                stake_ok_found = true;
            }
        }
    }
    assert!(claim_failed_found, "claim failed event for protocol2 not found");
    assert!(claim_ok_found, "claim ok event for protocol1 not found");
    assert!(stake_ok_found, "stake ok event not found");
    assert!(charge_fee_ok_found, "charge fee ok event not found");

    assert!(
        last_autoclaim_of(&state, "user1", "protocol1").unwrap().is_some(),
        "last_autoclaim should be updated for protocol1"
    );
    assert!(
        last_autoclaim_of(&state, "user1", "protocol2").unwrap().is_none(),
        "last_autoclaim should not be updated for protocol2"
    );
}

#[test]
fn test_instantiate_and_query_config() {
    let state = setup();
    let config = match query(&state, QueryMsg::Config {}) {
        QueryResponse::Config(c) => c,
        _ => panic!("wrong response variant"),
    };
    assert_eq!(config.owner, "owner");
    assert_eq!(config.max_parallel_claims, 5);
    assert_eq!(config.protocol_configs.len(), 3);
    assert_eq!(config.protocol_configs[0].protocol, "FIN");
    assert_eq!(config.protocol_configs[1].protocol, "protocol1");
    assert_eq!(config.protocol_configs[2].protocol, "protocol2");
}

#[test]
fn test_subscribe_and_query_subscriptions() {
    let mut state = setup();
    subscribe_user(&mut state, "user1", vec!["protocol1", "protocol2"]);

    let res = query_get_subscribed_protocols(&state, "user1".to_string());
    assert_eq!(res.protocols.len(), 2);
    assert_eq!(res.protocols[0].protocol, "protocol1");
    assert_eq!(res.protocols[1].protocol, "protocol2");
}

#[test]
fn test_unsubscribe() {
    let mut state = setup();
    subscribe_user(&mut state, "user1", vec!["protocol1", "protocol2"]);

    let unsubscribe_msg = ExecuteMsg::Unsubscribe {
        protocols: vec!["protocol1".to_string()],
    };
    execute(&mut state, &empty_bank(), info("user1"), unsubscribe_msg).unwrap();

    let res = query_get_subscribed_protocols(&state, "user1".to_string());
    assert_eq!(res.protocols.len(), 1);
    assert_eq!(res.protocols[0].protocol, "protocol2");
}

#[test]
fn test_unauthorized_claim_and_stake() {
    let mut state = setup();
    subscribe_user(&mut state, "user1", vec!["protocol1"]);

    let claim_and_stake_msg = ExecuteMsg::ClaimAndStake {
        users_protocols: vec![("user1".to_string(), vec!["protocol1".to_string()])],
    };
    let err = execute(&mut state, &empty_bank(), info("user1"), claim_and_stake_msg).unwrap_err();
    assert!(err
        .message()
        .contains("You have no permissions to execute this function"));
}

#[test]
fn test_update_config() {
    let mut state = setup();
    let update_msg = ExecuteMsg::UpdateConfig {
        config: UpdateConfigMsg {
            owner: Some("new_owner".to_string()),
            max_parallel_claims: Some(10),
            protocol_configs: None,
        },
    };
    execute(&mut state, &empty_bank(), info("owner"), update_msg).unwrap();

    let config = match query(&state, QueryMsg::Config {}) {
        QueryResponse::Config(c) => c,
        _ => panic!("wrong response variant"),
    };
    assert_eq!(config.owner, "new_owner");
    assert_eq!(config.max_parallel_claims, 10);
}

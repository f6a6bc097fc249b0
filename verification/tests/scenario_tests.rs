//! Scenario tests for the batch cap, the subscription filter, partial
//! pipeline failure with a zero fee, and reply consistency checks.

use autorujira::autoclaimer::contract::{execute, instantiate, migrate, query};
use autorujira::autoclaimer::msg::{OldProtocolConfig, QueryMsg, QueryResponse};
use autorujira::autoclaimer::error::ContractError;
use autorujira::autoclaimer::msg::{ExecuteMsg, InstantiateMsg, ProtocolConfig, ProtocolStrategy};
use autorujira::autoclaimer::settle::reply;
use autorujira::autoclaimer::state::State;
use autorujira::autoclaimer::subs::query_get_subscribed_protocols;
use autorujira::common::StakingProvider;
use autorujira::host::{Bank, BankEntry, Env, Event, MessageInfo, Reply, SubMsgResult};

/// One percent as 18-decimal atomics.
const ONE_PERCENT: u128 = 10_000_000_000_000_000;

fn env() -> Env {
    Env {
        contract_address: "autoclaimer".to_string(),
        time_nanos: 1_571_797_419_879_305_533,
    }
}

fn empty_bank() -> Bank {
    Bank { balances: vec![] }
}

fn info(sender: &str) -> MessageInfo {
    MessageInfo {
        sender: sender.to_string(),
        funds: vec![],
    }
}

fn cs_config(name: &str, fee: u128, denom: &str) -> ProtocolConfig {
    ProtocolConfig {
        protocol: name.to_string(),
        fee_percentage: fee,
        fee_address: "feeaddress".to_string(),
        strategy: ProtocolStrategy::ClaimAndStakeDaoDaoCwRewards {
            provider: StakingProvider::DAO_DAO,
            claim_contract_address: "claim_contract".to_string(),
            stake_contract_address: "stake_contract".to_string(),
            reward_denom: denom.to_string(),
        },
    }
}

/// protocol1 charges no fee, protocol2 charges one percent.
fn setup_zero_fee() -> State {
    let mut state = State::new();
    instantiate(
        &mut state,
        InstantiateMsg {
            owner: "owner".to_string(),
            max_parallel_claims: 5,
            protocol_configs: vec![
                cs_config("protocol1", 0, "token1"),
                cs_config("protocol2", ONE_PERCENT, "token2"),
            ],
        },
    )
    .unwrap();
    state
}

fn subscribe_user(state: &mut State, user: &str, protocols: Vec<&str>) {
    let msg = ExecuteMsg::Subscribe {
        protocols: protocols.into_iter().map(|p| p.to_string()).collect(),
    };
    execute(state, &empty_bank(), info(user), msg).unwrap();
}

fn attr_value(event: &Event, key: &str) -> Option<String> {
    event
        .attributes
        .iter()
        .find(|a| a.key == key)
        .map(|a| a.value.clone())
}

/// A batch over the cap fails with the cap error and dispatches nothing:
/// a later reply for a would-be handle finds no recorded context.
#[test]
fn cap_exceeded_dispatches_nothing() {
    let mut state = setup_zero_fee();
    subscribe_user(&mut state, "user1", vec!["protocol1", "protocol2"]);

    let batch = ExecuteMsg::ClaimAndStake {
        users_protocols: vec![
            ("user1".to_string(), vec!["protocol1".to_string(), "protocol2".to_string()]),
            ("user2".to_string(), vec!["protocol1".to_string(), "protocol2".to_string()]),
            ("user3".to_string(), vec!["protocol1".to_string(), "protocol2".to_string()]),
        ],
    };
    let err = execute(&mut state, &empty_bank(), info("owner"), batch).unwrap_err();
    match err {
        ContractError::TooManyMessages { max_allowed } => assert_eq!(max_allowed, 5),
        other => panic!("unexpected error: {}", other.message()),
    }
    assert_eq!(err_message_of_reply(&mut state, 1000), "Invalid reply ID: 1000");
}

fn err_message_of_reply(state: &mut State, id: u64) -> String {
    let r = Reply {
        id,
        result: SubMsgResult::Success { events: vec![] },
    };
    reply(state, &empty_bank(), &env(), r).unwrap_err().message()
}

/// An unsubscribed pair is ignored, counted, and gets no claim operation.
#[test]
fn unsubscribed_pair_is_ignored() {
    let mut state = setup_zero_fee();
    subscribe_user(&mut state, "user1", vec!["protocol1"]);

    let batch = ExecuteMsg::ClaimAndStake {
        users_protocols: vec![(
            "user1".to_string(),
            vec!["protocol1".to_string(), "protocol2".to_string()],
        )],
    };
    let res = execute(&mut state, &empty_bank(), info("owner"), batch).unwrap();
    assert_eq!(res.messages.len(), 1);
    assert_eq!(res.messages[0].id, 1000);
    let event = &res.events[0];
    assert_eq!(attr_value(event, "ignored_count").as_deref(), Some("1"));
    assert_eq!(
        attr_value(event, "ignored_pairs").as_deref(),
        Some("user1:protocol2")
    );
}

/// Claims settle independently: a zero-fee success dispatches only the
/// stake, with the full amount; a failed claim only leaves an event, and
/// the whole call still succeeds.
#[test]
fn zero_fee_success_and_failure_settle_independently() {
    let mut state = setup_zero_fee();
    subscribe_user(&mut state, "user1", vec!["protocol1", "protocol2"]);

    let batch = ExecuteMsg::ClaimAndStake {
        users_protocols: vec![(
            "user1".to_string(),
            vec!["protocol1".to_string(), "protocol2".to_string()],
        )],
    };
    let res = execute(&mut state, &empty_bank(), info("owner"), batch).unwrap();
    assert_eq!(res.messages.len(), 2);

    // protocol1's claim paid 1000 token1; its fee is zero, so no fee
    // transfer goes out and everything is staked.
    let bank_after = Bank {
        balances: vec![BankEntry {
            address: "user1".to_string(),
            denom: "token1".to_string(),
            amount: 1000,
        }],
    };
    let ok = reply(
        &mut state,
        &bank_after,
        &env(),
        Reply {
            id: 1000,
            result: SubMsgResult::Success { events: vec![] },
        },
    )
    .unwrap();
    assert_eq!(ok.messages.len(), 1);
    assert_eq!(ok.messages[0].id, 2000);
    let event = &ok.events[0];
    assert_eq!(attr_value(event, "result").as_deref(), Some("ok"));
    assert_eq!(attr_value(event, "tokens_claimed").as_deref(), Some("1000"));
    assert_eq!(attr_value(event, "fee_to_charge").as_deref(), Some("0"));
    assert_eq!(attr_value(event, "tokens_to_stake").as_deref(), Some("1000"));

    // protocol2's claim failed in the external contract.
    let failed = reply(
        &mut state,
        &bank_after,
        &env(),
        Reply {
            id: 1001,
            result: SubMsgResult::Failure {
                error: "claim failed".to_string(),
            },
        },
    )
    .unwrap();
    assert!(failed.messages.is_empty());
    let event = &failed.events[0];
    assert_eq!(attr_value(event, "result").as_deref(), Some("failed"));
    assert_eq!(attr_value(event, "error").as_deref(), Some("claim failed"));

    let subs = query_get_subscribed_protocols(&state, "user1".to_string());
    assert!(subs.protocols[0].last_autoclaim.is_some());
    assert!(subs.protocols[1].last_autoclaim.is_none());
}

/// A reply under a handle never recorded fails with the consistency error.
#[test]
fn unknown_reply_handle_is_fatal() {
    let mut state = setup_zero_fee();
    let err = reply(
        &mut state,
        &empty_bank(),
        &env(),
        Reply {
            id: 4321,
            result: SubMsgResult::Success { events: vec![] },
        },
    )
    .unwrap_err();
    match err {
        ContractError::InvalidReplyId { id } => assert_eq!(id, 4321),
        other => panic!("unexpected error: {}", other.message()),
    }
    // A handle below every stage range was never assigned at all.
    let err = reply(
        &mut state,
        &empty_bank(),
        &env(),
        Reply {
            id: 500,
            result: SubMsgResult::Success { events: vec![] },
        },
    )
    .unwrap_err();
    assert_eq!(err.message(), "Invalid reply ID: 500");
}

/// A balance that shrank across the claim settles as "no rewards" and
/// leaves the last-claim time untouched.
#[test]
fn shrunk_balance_is_no_rewards() {
    let mut state = setup_zero_fee();
    subscribe_user(&mut state, "user1", vec!["protocol1"]);
    let batch = ExecuteMsg::ClaimAndStake {
        users_protocols: vec![("user1".to_string(), vec!["protocol1".to_string()])],
    };
    // The user held 500 token1 before the claim.
    let bank_before = Bank {
        balances: vec![BankEntry {
            address: "user1".to_string(),
            denom: "token1".to_string(),
            amount: 500,
        }],
    };
    execute(&mut state, &bank_before, info("owner"), batch).unwrap();
    // By settlement time the balance dropped to 100.
    let bank_after = Bank {
        balances: vec![BankEntry {
            address: "user1".to_string(),
            denom: "token1".to_string(),
            amount: 100,
        }],
    };
    let err = reply(
        &mut state,
        &bank_after,
        &env(),
        Reply {
            id: 1000,
            result: SubMsgResult::Success { events: vec![] },
        },
    )
    .unwrap_err();
    match err {
        ContractError::NoRewards { .. } => {}
        other => panic!("unexpected error: {}", other.message()),
    }
    let subs = query_get_subscribed_protocols(&state, "user1".to_string());
    assert!(subs.protocols[0].last_autoclaim.is_none());
}

/// Unsubscribing with no subscription record at all is a silent no-op: the
/// call succeeds and no record is created.
#[test]
fn unsubscribe_without_record_is_noop() {
    let mut state = setup_zero_fee();
    let msg = ExecuteMsg::Unsubscribe {
        protocols: vec!["protocol1".to_string()],
    };
    execute(&mut state, &empty_bank(), info("stranger"), msg).unwrap();
    let listing = match query(&state, QueryMsg::GetSubscriptions {}) {
        QueryResponse::Subscriptions(s) => s,
        _ => panic!("wrong response variant"),
    };
    assert!(listing.subscriptions.is_empty());
}

/// A claim-only dispatch against an unregistered protocol is rejected as an
/// invalid protocol.
#[test]
fn claim_only_unknown_protocol_is_invalid_protocol() {
    let mut state = setup_zero_fee();
    let msg = ExecuteMsg::ClaimOnly {
        protocol: "nope".to_string(),
        users_contracts: vec![("user1".to_string(), "market".to_string())],
    };
    let err = execute(&mut state, &empty_bank(), info("owner"), msg).unwrap_err();
    assert_eq!(err.message(), "Unsupported protocol: nope");
}

/// The claim-only entry point rejects a claim-and-stake protocol.
#[test]
fn claim_only_on_wrong_strategy_is_rejected() {
    let mut state = setup_zero_fee();
    let msg = ExecuteMsg::ClaimOnly {
        protocol: "protocol1".to_string(),
        users_contracts: vec![("user1".to_string(), "market".to_string())],
    };
    let err = execute(&mut state, &empty_bank(), info("owner"), msg).unwrap_err();
    assert_eq!(
        err.message(),
        "Unsupported strategy: ClaimAndStakeDaoDaoCwRewards"
    );
}

/// Subscribing to an unknown protocol rejects the whole call.
#[test]
fn subscribe_unknown_protocol_is_rejected() {
    let mut state = setup_zero_fee();
    let msg = ExecuteMsg::Subscribe {
        protocols: vec!["protocol1".to_string(), "nope".to_string()],
    };
    let err = execute(&mut state, &empty_bank(), info("user1"), msg).unwrap_err();
    assert_eq!(err.message(), "Unsupported protocol: nope");
    // Nothing partial was subscribed.
    let subs = query_get_subscribed_protocols(&state, "user1".to_string());
    assert!(subs.protocols.is_empty());
}

/// Funds attached to any execute call reject it.
#[test]
fn attached_funds_are_rejected() {
    let mut state = setup_zero_fee();
    let msg = ExecuteMsg::Subscribe {
        protocols: vec!["protocol1".to_string()],
    };
    let with_funds = MessageInfo {
        sender: "user1".to_string(),
        funds: vec![autorujira::host::Coin {
            denom: "token1".to_string(),
            amount: 7,
        }],
    };
    let err = execute(&mut state, &empty_bank(), with_funds, msg).unwrap_err();
    assert_eq!(err.message(), "Generic error: Don't send funds to this function!");
}

/// Subscribing twice to the same protocols does not duplicate them, and
/// unsubscribing a never-subscribed protocol is a no-op.
#[test]
fn subscription_round_trip() {
    let mut state = setup_zero_fee();
    subscribe_user(&mut state, "user1", vec!["protocol1", "protocol2"]);
    subscribe_user(&mut state, "user1", vec!["protocol1", "protocol2"]);
    let subs = query_get_subscribed_protocols(&state, "user1".to_string());
    assert_eq!(subs.protocols.len(), 2);

    // protocol2 leaves; unsubscribing it again changes nothing and is no
    // error.
    for _ in 0..2 {
        let msg = ExecuteMsg::Unsubscribe {
            protocols: vec!["protocol2".to_string()],
        };
        execute(&mut state, &empty_bank(), info("user1"), msg).unwrap();
        let subs = query_get_subscribed_protocols(&state, "user1".to_string());
        assert_eq!(subs.protocols.len(), 1);
        assert_eq!(subs.protocols[0].protocol, "protocol1");
    }
}

/// Old-layout registry rows migrate into claim-and-stake entries.
#[test]
fn migrate_rewrites_old_rows() {
    let mut state = setup_zero_fee();
    let old_rows = vec![(
        "legacy".to_string(),
        OldProtocolConfig {
            provider: StakingProvider::CW_REWARDS,
            claim_contract_address: "legacy_claim".to_string(),
            stake_contract_address: "legacy_stake".to_string(),
            reward_denom: "utoken".to_string(),
            fee_percentage: ONE_PERCENT,
            fee_address: "legacy_fees".to_string(),
        },
    )];
    migrate(&mut state, old_rows).unwrap();

    let config = match query(&state, QueryMsg::Config {}) {
        QueryResponse::Config(c) => c,
        _ => panic!("wrong response variant"),
    };
    let legacy = config
        .protocol_configs
        .iter()
        .find(|c| c.protocol == "legacy")
        .unwrap();
    assert_eq!(legacy.fee_percentage, ONE_PERCENT);
    match &legacy.strategy {
        ProtocolStrategy::ClaimAndStakeDaoDaoCwRewards { reward_denom, .. } => {
            assert_eq!(reward_denom, "utoken");
        }
        _ => panic!("wrong strategy after migration"),
    }
}

//! Unit tests for the fee split, decimal rendering, coin parsing, and the
//! message builders.

use autorujira::arith::{fee_amount, split_claimed, FEE_DIVISOR};
use autorujira::common::{
    build_claim_msg, build_FIN_claim_msg, build_send_msg, build_stake_msg, AuthzMessageType,
    ClaimMsgCwRewards, ClaimMsgDAODAO, ContractCommand, StakeContractExecuteMsg, StakingProvider,
};
use autorujira::host::{parse_coin, Bank, BankEntry, OutMsg};
use autorujira::text::{str_lt, u128_to_string, u64_to_string};
use std::str::FromStr;

/// One percent as 18-decimal atomics.
const ONE_PERCENT: u128 = 10_000_000_000_000_000;

#[test]
fn fee_split_is_exact() {
    // 1% of 1000 is 10; fee and stake add back up exactly.
    assert_eq!(fee_amount(1000, ONE_PERCENT), 10);
    assert_eq!(split_claimed(1000, ONE_PERCENT), (10, 990));

    // The floor shows: 1% of 150 is 1.5, charged as 1.
    assert_eq!(split_claimed(150, ONE_PERCENT), (1, 149));

    // A zero ratio charges nothing; the full ratio takes everything.
    assert_eq!(split_claimed(12345, 0), (0, 12345));
    assert_eq!(split_claimed(12345, FEE_DIVISOR), (12345, 0));

    // No overflow at the extremes.
    assert_eq!(fee_amount(u128::MAX, FEE_DIVISOR), u128::MAX);
    assert_eq!(fee_amount(u128::MAX, 0), 0);
    let (fee, stake) = split_claimed(u128::MAX, ONE_PERCENT);
    assert_eq!(fee + stake, u128::MAX);
}

#[test]
fn decimal_rendering() {
    assert_eq!(u128_to_string(0), "0");
    assert_eq!(u128_to_string(7), "7");
    assert_eq!(u128_to_string(12345), "12345");
    assert_eq!(
        u128_to_string(u128::MAX),
        "340282366920938463463374607431768211455"
    );
    assert_eq!(u64_to_string(3000), "3000");
}

#[test]
fn coin_strings_parse_as_the_host_renders_them() {
    let c = parse_coin("1000token1").unwrap();
    assert_eq!(c.amount, 1000);
    assert_eq!(c.denom, "token1");

    // No leading digits, no denomination, or an overflowing amount fail.
    assert!(parse_coin("token1").is_none());
    assert!(parse_coin("1000").is_none());
    assert!(parse_coin("").is_none());
    assert!(parse_coin("340282366920938463463374607431768211456utoken").is_none());
    // The largest amount still parses.
    let c = parse_coin("340282366920938463463374607431768211455utoken").unwrap();
    assert_eq!(c.amount, u128::MAX);
    assert_eq!(c.denom, "utoken");
}

#[test]
fn string_order_matches_storage_order() {
    assert!(str_lt("FIN", "protocol1"));
    assert!(str_lt("protocol1", "protocol2"));
    assert!(!str_lt("protocol2", "protocol1"));
    assert!(!str_lt("abc", "abc"));
    assert!(str_lt("ab", "abc"));
}

#[test]
fn bank_snapshot_lookup() {
    let bank = Bank {
        balances: vec![
            BankEntry {
                address: "user1".to_string(),
                denom: "token1".to_string(),
                amount: 42,
            },
            BankEntry {
                address: "user1".to_string(),
                denom: "token2".to_string(),
                amount: 7,
            },
        ],
    };
    assert_eq!(bank.balance_of("user1", "token1"), 42);
    assert_eq!(bank.balance_of("user1", "token2"), 7);
    assert_eq!(bank.balance_of("user2", "token1"), 0);
}

#[test]
fn claim_messages_carry_the_provider_command() {
    let msg = build_claim_msg(
        "user1".to_string(),
        StakingProvider::DAO_DAO,
        "claims".to_string(),
        2,
    );
    match msg {
        OutMsg::Authz { user, msg_type } => {
            assert_eq!(user, "user1");
            match msg_type {
                AuthzMessageType::ExecuteContract { contract_addr, msg, funds } => {
                    assert_eq!(contract_addr, "claims");
                    assert!(funds.is_empty());
                    match msg {
                        ContractCommand::ClaimDaoDao(ClaimMsgDAODAO { claim }) => {
                            assert_eq!(claim.id, 2);
                        }
                        _ => panic!("wrong command"),
                    }
                }
                _ => panic!("wrong action"),
            }
        }
        _ => panic!("wrong message kind"),
    }

    let msg = build_claim_msg(
        "user1".to_string(),
        StakingProvider::CW_REWARDS,
        "claims".to_string(),
        2,
    );
    match msg {
        OutMsg::Authz { msg_type: AuthzMessageType::ExecuteContract { msg, .. }, .. } => {
            assert!(matches!(msg, ContractCommand::ClaimCwRewards(ClaimMsgCwRewards { .. })));
        }
        _ => panic!("wrong message kind"),
    }
}

#[test]
fn stake_and_send_messages_carry_the_funds() {
    let msg = build_stake_msg(
        "user1".to_string(),
        StakingProvider::CW_REWARDS,
        "staker".to_string(),
        990,
        "token1".to_string(),
    );
    match msg {
        OutMsg::Authz { msg_type: AuthzMessageType::ExecuteContract { contract_addr, msg, funds }, .. } => {
            assert_eq!(contract_addr, "staker");
            assert!(matches!(msg, ContractCommand::StakeTokens(StakeContractExecuteMsg::Stake {})));
            assert_eq!(funds.len(), 1);
            assert_eq!(funds[0].denom, "token1");
            assert_eq!(funds[0].amount, 990);
        }
        _ => panic!("wrong message kind"),
    }

    let msg = build_send_msg("user1".to_string(), "fees".to_string(), 10, "token1".to_string());
    match msg {
        OutMsg::Authz { user, msg_type: AuthzMessageType::Send { to_address, amount } } => {
            assert_eq!(user, "user1");
            assert_eq!(to_address, "fees");
            assert_eq!(amount.len(), 1);
            assert_eq!(amount[0].amount, 10);
        }
        _ => panic!("wrong message kind"),
    }

    let msg = build_FIN_claim_msg("user1".to_string(), "market".to_string());
    match msg {
        OutMsg::Authz { msg_type: AuthzMessageType::ExecuteContract { contract_addr, msg, .. }, .. } => {
            assert_eq!(contract_addr, "market");
            assert!(matches!(msg, ContractCommand::WithdrawOrders));
        }
        _ => panic!("wrong message kind"),
    }
}

#[test]
fn staking_provider_parses_its_names() {
    assert_eq!(StakingProvider::from_str("DAO_DAO"), Ok(StakingProvider::DAO_DAO));
    assert_eq!(StakingProvider::from_str("CW_REWARDS"), Ok(StakingProvider::CW_REWARDS));
    assert_eq!(StakingProvider::from_str("other"), Err(()));
}

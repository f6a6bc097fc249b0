//! Shared building blocks of the dispatched operations: the staking
//! providers, the commands the contracts ask external contracts to run, and
//! the helpers that wrap a command in an authorization instruction executed
//! on a user's behalf.

use vstd::prelude::*;

verus! {

use crate::autosltp::fin::{Price, Side};
use crate::host::{Bank, Coin, CoinV, OutMsg, OutMsgV, spec_balance};

/// The staking providers a claim-and-stake protocol can be built on.
#[allow(non_camel_case_types)]
#[derive(Clone, Copy, PartialEq, Eq, Structural, Debug)]
pub enum StakingProvider {
    DAO_DAO,
    CW_REWARDS,
}

impl core::str::FromStr for StakingProvider {
    type Err = ();

    fn from_str(input: &str) -> Result<StakingProvider, ()> {
        if crate::text::str_eq_str(input, "CW_REWARDS") {
            Ok(StakingProvider::CW_REWARDS)
        } else if crate::text::str_eq_str(input, "DAO_DAO") {
            Ok(StakingProvider::DAO_DAO)
        } else {
            Err(())
        }
    }
}

/// The claim request a DAO DAO rewards contract expects.
#[derive(Clone, Copy, PartialEq, Eq, Structural, Debug)]
pub struct ClaimMsgDAODAO {
    pub claim: ClaimParamsDAODAO,
}

#[derive(Clone, Copy, PartialEq, Eq, Structural, Debug)]
pub struct ClaimParamsDAODAO {
    pub id: u64,
}

/// The claim request a cw-rewards contract expects.
#[derive(Clone, Copy, PartialEq, Eq, Structural, Debug)]
pub struct ClaimMsgCwRewards {
    pub claim_rewards: ClaimParamsCwRewards,
}

#[derive(Clone, Copy, PartialEq, Eq, Structural, Debug)]
pub struct ClaimParamsCwRewards {}

/// The execute request a stake contract expects.
#[derive(Clone, Copy, PartialEq, Eq, Structural, Debug)]
pub enum StakeContractExecuteMsg {
    Stake {},
}

/// A command asked of an external contract. The host boundary is responsible
/// for the wire encoding; the logic only decides which command to send.
#[derive(Clone, Copy, PartialEq, Eq, Structural, Debug)]
pub enum ContractCommand {
    /// Claim pending rewards from a DAO DAO rewards contract.
    ClaimDaoDao(ClaimMsgDAODAO),
    /// Claim pending rewards from a cw-rewards contract.
    ClaimCwRewards(ClaimMsgCwRewards),
    /// Stake the attached funds.
    StakeTokens(StakeContractExecuteMsg),
    /// Withdraw filled orders on an order-book market.
    WithdrawOrders,
    /// Place (or, with amount zero, claim) an order on an order-book market.
    Order { side: Side, price: Price, amount: u128 },
    /// Swap the attached funds at the market price.
    Swap,
}

/// An action executed with a user's authorization.
#[derive(Debug)]
pub enum AuthzMessageType {
    ExecuteContract { contract_addr: String, msg: ContractCommand, funds: Vec<Coin> },
    Send { to_address: String, amount: Vec<Coin> },
}

#[verifier::ext_equal]
pub enum AuthzMessageTypeV {
    ExecuteContract { contract_addr: Seq<char>, msg: ContractCommand, funds: Seq<CoinV> },
    Send { to_address: Seq<char>, amount: Seq<CoinV> },
}

impl View for AuthzMessageType {
    type V = AuthzMessageTypeV;

    open spec fn view(&self) -> AuthzMessageTypeV {
        match self {
            AuthzMessageType::ExecuteContract { contract_addr, msg, funds } => {
                AuthzMessageTypeV::ExecuteContract {
                    contract_addr: contract_addr@,
                    msg: *msg,
                    funds: funds@.map_values(|c: Coin| c@),
                }
            },
            AuthzMessageType::Send { to_address, amount } => AuthzMessageTypeV::Send {
                to_address: to_address@,
                amount: amount@.map_values(|c: Coin| c@),
            },
        }
    }
}

/// Wraps an action in an authorization instruction executed on the user's
/// behalf, this contract acting as the grantee.
pub fn build_authz_msg(user: String, authz_msg_type: AuthzMessageType) -> (r: OutMsg)
    ensures
        r@ == (OutMsgV::Authz { user: user@, msg_type: authz_msg_type@ }),
{
    OutMsg::Authz { user, msg_type: authz_msg_type }
}

/// The claim command a provider's claim contract expects.
pub open spec fn claim_command(provider: StakingProvider, claim_id: u64) -> ContractCommand {
    match provider {
        StakingProvider::DAO_DAO => ContractCommand::ClaimDaoDao(
            ClaimMsgDAODAO { claim: ClaimParamsDAODAO { id: claim_id } },
        ),
        StakingProvider::CW_REWARDS => ContractCommand::ClaimCwRewards(
            ClaimMsgCwRewards { claim_rewards: ClaimParamsCwRewards {} },
        ),
    }
}

/// The view of an operation that runs `msg` on `contract` as `user`, with
/// the given funds attached.
pub open spec fn authz_execute(
    user: Seq<char>,
    contract: Seq<char>,
    msg: ContractCommand,
    funds: Seq<CoinV>,
) -> OutMsgV {
    OutMsgV::Authz {
        user: user,
        msg_type: AuthzMessageTypeV::ExecuteContract { contract_addr: contract, msg: msg, funds: funds },
    }
}

/// Builds the claim operation for one (user, protocol) pair: ask the
/// provider's claim contract, as the user, to pay out pending rewards.
pub fn build_claim_msg(
    user: String,
    provider: StakingProvider,
    claim_contract_address: String,
    claim_id: u64,
) -> (r: OutMsg)
    ensures
        r@ == authz_execute(
            user@,
            claim_contract_address@,
            claim_command(provider, claim_id),
            Seq::<CoinV>::empty(),
        ),
{
    let command = match provider {
        StakingProvider::DAO_DAO => ContractCommand::ClaimDaoDao(
            ClaimMsgDAODAO { claim: ClaimParamsDAODAO { id: claim_id } },
        ),
        StakingProvider::CW_REWARDS => ContractCommand::ClaimCwRewards(
            ClaimMsgCwRewards { claim_rewards: ClaimParamsCwRewards {} },
        ),
    };
    let funds: Vec<Coin> = Vec::new();
    let ghost funds_view = funds@.map_values(|c: Coin| c@);
    let r = OutMsg::Authz {
        user,
        msg_type: AuthzMessageType::ExecuteContract {
            contract_addr: claim_contract_address,
            msg: command,
            funds,
        },
    };
    proof {
        assert(funds_view =~= Seq::<CoinV>::empty());
    }
    r
}

/// Builds the claim operation for an order-book market: ask the market, as
/// the user, to withdraw the user's filled orders.
#[allow(non_snake_case)]
pub fn build_FIN_claim_msg(user: String, contract_address: String) -> (r: OutMsg)
    ensures
        r@ == authz_execute(
            user@,
            contract_address@,
            ContractCommand::WithdrawOrders,
            Seq::<CoinV>::empty(),
        ),
{
    let funds: Vec<Coin> = Vec::new();
    let ghost funds_view = funds@.map_values(|c: Coin| c@);
    let r = OutMsg::Authz {
        user,
        msg_type: AuthzMessageType::ExecuteContract {
            contract_addr: contract_address,
            msg: ContractCommand::WithdrawOrders,
            funds,
        },
    };
    proof {
        assert(funds_view =~= Seq::<CoinV>::empty());
    }
    r
}

/// Builds the stake operation: ask the provider's stake contract, as the
/// user, to stake the attached amount.
pub fn build_stake_msg(
    user: String,
    provider: StakingProvider,
    stake_contract_address: String,
    amount: u128,
    denom: String,
) -> (r: OutMsg)
    ensures
        r@ == authz_execute(
            user@,
            stake_contract_address@,
            ContractCommand::StakeTokens(StakeContractExecuteMsg::Stake {}),
            seq![CoinV { denom: denom@, amount: amount }],
        ),
{
    match provider {
        StakingProvider::DAO_DAO | StakingProvider::CW_REWARDS => {
            let mut funds: Vec<Coin> = Vec::new();
            funds.push(Coin { denom, amount });
            let ghost funds_view = funds@.map_values(|c: Coin| c@);
            let r = OutMsg::Authz {
                user,
                msg_type: AuthzMessageType::ExecuteContract {
                    contract_addr: stake_contract_address,
                    msg: ContractCommand::StakeTokens(StakeContractExecuteMsg::Stake {}),
                    funds,
                },
            };
            proof {
                assert(funds_view =~= seq![CoinV { denom: funds_view[0].denom, amount: amount }]);
            }
            r
        },
    }
}

/// Builds the fee transfer: send the fee, from the user's own balance, to
/// the fee recipient.
pub fn build_send_msg(user: String, to_address: String, amount: u128, denom: String) -> (r: OutMsg)
    ensures
        r@ == (OutMsgV::Authz {
            user: user@,
            msg_type: AuthzMessageTypeV::Send {
                to_address: to_address@,
                amount: seq![CoinV { denom: denom@, amount: amount }],
            },
        }),
{
    let mut coins: Vec<Coin> = Vec::new();
    coins.push(Coin { denom, amount });
    let ghost coins_view = coins@.map_values(|c: Coin| c@);
    let r = OutMsg::Authz {
        user,
        msg_type: AuthzMessageType::Send { to_address, amount: coins },
    };
    proof {
        assert(coins_view =~= seq![CoinV { denom: coins_view[0].denom, amount: amount }]);
    }
    r
}

/// Reads a user's balance of one denomination from a bank snapshot.
pub fn query_token_balance(bank: &Bank, address: &str, denom: &str) -> (r: u128)
    ensures
        r == spec_balance(bank@, address@, denom@),
{
    bank.balance_of(address, denom)
}

} // verus!

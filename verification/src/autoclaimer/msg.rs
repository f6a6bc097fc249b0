//! The auto-claimer's protocol registry entries and its entry-point messages.

use vstd::prelude::*;

verus! {

use crate::arith::FEE_DIVISOR;
use crate::common::StakingProvider;
use crate::text::{clone_strings, strings_view};
use vstd::string::StringExecFns;

/// A registry entry in the layout an earlier deployment stored, before the
/// strategy became a tagged union.
pub struct OldProtocolConfig {
    pub provider: StakingProvider,
    pub claim_contract_address: String,
    pub stake_contract_address: String,
    pub reward_denom: String,
    /// 18-decimal atomics of a ratio in [0, 1].
    pub fee_percentage: u128,
    pub fee_address: String,
}

/// One protocol's registry entry: its fee terms and execution strategy.
pub struct ProtocolConfig {
    /// The protocol identifier, the registry's unique key.
    pub protocol: String,
    /// 18-decimal atomics of a fee ratio in [0, 1].
    pub fee_percentage: u128,
    /// Where the fee is sent.
    pub fee_address: String,
    /// Which operations the protocol supports.
    pub strategy: ProtocolStrategy,
}

/// A protocol's execution strategy.
pub enum ProtocolStrategy {
    /// Claim from the provider's claim contract, then stake; rewards arrive
    /// in `reward_denom`.
    ClaimAndStakeDaoDaoCwRewards {
        provider: StakingProvider,
        claim_contract_address: String,
        stake_contract_address: String,
        reward_denom: String,
    },
    /// Withdraw filled orders on one of a fixed set of market contracts;
    /// nothing is staked.
    ClaimOnlyFIN { supported_markets: Vec<String> },
}

#[verifier::ext_equal]
pub enum ProtocolStrategyV {
    ClaimAndStakeDaoDaoCwRewards {
        provider: StakingProvider,
        claim_contract_address: Seq<char>,
        stake_contract_address: Seq<char>,
        reward_denom: Seq<char>,
    },
    ClaimOnlyFIN { supported_markets: Seq<Seq<char>> },
}

impl View for ProtocolStrategy {
    type V = ProtocolStrategyV;

    open spec fn view(&self) -> ProtocolStrategyV {
        match self {
            ProtocolStrategy::ClaimAndStakeDaoDaoCwRewards {
                provider,
                claim_contract_address,
                stake_contract_address,
                reward_denom,
            } => ProtocolStrategyV::ClaimAndStakeDaoDaoCwRewards {
                provider: *provider,
                claim_contract_address: claim_contract_address@,
                stake_contract_address: stake_contract_address@,
                reward_denom: reward_denom@,
            },
            ProtocolStrategy::ClaimOnlyFIN { supported_markets } => {
                ProtocolStrategyV::ClaimOnlyFIN {
                    supported_markets: strings_view(supported_markets@),
                }
            },
        }
    }
}

/// The name under which a strategy variant is reported in errors.
pub open spec fn strategy_name(s: ProtocolStrategyV) -> Seq<char> {
    match s {
        ProtocolStrategyV::ClaimAndStakeDaoDaoCwRewards { .. } => "ClaimAndStakeDaoDaoCwRewards"@,
        ProtocolStrategyV::ClaimOnlyFIN { .. } => "ClaimOnlyFIN"@,
    }
}

impl ProtocolStrategy {
    /// The strategy variant's name.
    pub fn as_str(&self) -> (r: &'static str)
        ensures
            r@ == strategy_name(self@),
    {
        match self {
            ProtocolStrategy::ClaimAndStakeDaoDaoCwRewards { .. } => "ClaimAndStakeDaoDaoCwRewards",
            ProtocolStrategy::ClaimOnlyFIN { .. } => "ClaimOnlyFIN",
        }
    }

    pub fn clone_strategy(&self) -> (r: Self)
        ensures
            r@ == self@,
    {
        match self {
            ProtocolStrategy::ClaimAndStakeDaoDaoCwRewards {
                provider,
                claim_contract_address,
                stake_contract_address,
                reward_denom,
            } => ProtocolStrategy::ClaimAndStakeDaoDaoCwRewards {
                provider: *provider,
                claim_contract_address: claim_contract_address.clone(),
                stake_contract_address: stake_contract_address.clone(),
                reward_denom: reward_denom.clone(),
            },
            ProtocolStrategy::ClaimOnlyFIN { supported_markets } => {
                ProtocolStrategy::ClaimOnlyFIN {
                    supported_markets: clone_strings(supported_markets),
                }
            },
        }
    }
}

#[verifier::ext_equal]
pub struct ProtocolConfigV {
    pub protocol: Seq<char>,
    pub fee_percentage: u128,
    pub fee_address: Seq<char>,
    pub strategy: ProtocolStrategyV,
}

impl View for ProtocolConfig {
    type V = ProtocolConfigV;

    open spec fn view(&self) -> ProtocolConfigV {
        ProtocolConfigV {
            protocol: self.protocol@,
            fee_percentage: self.fee_percentage,
            fee_address: self.fee_address@,
            strategy: self.strategy@,
        }
    }
}

impl ProtocolConfigV {
    /// A fee ratio never exceeds 1.
    pub open spec fn valid(self) -> bool {
        self.fee_percentage <= FEE_DIVISOR
    }
}

impl ProtocolConfig {
    pub fn clone_config(&self) -> (r: Self)
        ensures
            r@ == self@,
    {
        ProtocolConfig {
            protocol: self.protocol.clone(),
            fee_percentage: self.fee_percentage,
            fee_address: self.fee_address.clone(),
            strategy: self.strategy.clone_strategy(),
        }
    }
}

// Spec accessors for the claim-and-stake strategy's fields.

pub open spec fn is_claim_and_stake(s: ProtocolStrategyV) -> bool {
    s is ClaimAndStakeDaoDaoCwRewards
}

pub open spec fn cs_provider(s: ProtocolStrategyV) -> StakingProvider
    recommends
        is_claim_and_stake(s),
{
    s->ClaimAndStakeDaoDaoCwRewards_provider
}

pub open spec fn cs_claim_contract(s: ProtocolStrategyV) -> Seq<char>
    recommends
        is_claim_and_stake(s),
{
    s->ClaimAndStakeDaoDaoCwRewards_claim_contract_address
}

pub open spec fn cs_stake_contract(s: ProtocolStrategyV) -> Seq<char>
    recommends
        is_claim_and_stake(s),
{
    s->ClaimAndStakeDaoDaoCwRewards_stake_contract_address
}

pub open spec fn cs_reward_denom(s: ProtocolStrategyV) -> Seq<char>
    recommends
        is_claim_and_stake(s),
{
    s->ClaimAndStakeDaoDaoCwRewards_reward_denom
}

pub open spec fn co_markets(s: ProtocolStrategyV) -> Seq<Seq<char>>
    recommends
        s is ClaimOnlyFIN,
{
    s->ClaimOnlyFIN_supported_markets
}

// ---------------------------------------------------------------------------
// Entry-point messages.
// ---------------------------------------------------------------------------

/// The initial configuration.
pub struct InstantiateMsg {
    pub owner: String,
    pub max_parallel_claims: u8,
    pub protocol_configs: Vec<ProtocolConfig>,
}

/// A configuration update; absent fields keep their stored value.
pub struct UpdateConfigMsg {
    pub owner: Option<String>,
    pub max_parallel_claims: Option<u8>,
    pub protocol_configs: Option<Vec<ProtocolConfig>>,
}

/// The execute entry points.
pub enum ExecuteMsg {
    UpdateConfig { config: UpdateConfigMsg },
    ClaimAndStake { users_protocols: Vec<(String, Vec<String>)> },
    ClaimOnly { protocol: String, users_contracts: Vec<(String, String)> },
    Subscribe { protocols: Vec<String> },
    Unsubscribe { protocols: Vec<String> },
}

/// The query entry points.
pub enum QueryMsg {
    Config {},
    GetSubscriptions {},
    GetSubscribedProtocols { user_address: String },
}

/// The config query's answer.
pub struct ConfigResponse {
    pub owner: String,
    pub max_parallel_claims: u8,
    pub protocol_configs: Vec<ProtocolConfig>,
}

/// All users' subscriptions.
pub struct GetSubscriptionsResponse {
    pub subscriptions: Vec<(String, Vec<String>)>,
}

/// One subscribed protocol with the time of its last successful claim,
/// in seconds, or nothing if it never succeeded.
pub struct ProtocolSubscriptionData {
    pub protocol: String,
    pub last_autoclaim: Option<u64>,
}

/// One user's subscriptions, enriched with last-claim times.
pub struct GetSubscribedProtocolsResponse {
    pub protocols: Vec<ProtocolSubscriptionData>,
}

/// A query's answer; the host boundary serializes it.
pub enum QueryResponse {
    Config(ConfigResponse),
    Subscriptions(GetSubscriptionsResponse),
    SubscribedProtocols(GetSubscribedProtocolsResponse),
}

} // verus!

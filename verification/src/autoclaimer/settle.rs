//! The reply correlator: each dispatched operation settles with a reply
//! carrying its handle; the handle's numeric range tells the stage, the
//! pending table gives the context, and a settled claim is split into a
//! stake operation and, when a fee is due, a fee transfer.
//!
//! Every failure is terminal for its pipeline and is only reported through
//! an event; no reply handler fails an invocation over a business failure.

use vstd::prelude::*;

verus! {

use crate::arith::{fee_of, split_claimed};
use crate::autoclaimer::batch::{
    contract_event_ty, CLAIM_AND_STAKE_CLAIM_BASE_ID, CLAIM_AND_STAKE_SEND_BASE_ID,
    CLAIM_AND_STAKE_STAKE_BASE_ID, CLAIM_ONLY_CLAIM_BASE_ID,
};
use crate::autoclaimer::error::ContractError;
use crate::autoclaimer::msg::{
    cs_provider, cs_reward_denom, cs_stake_contract, ProtocolStrategy,
    strategy_name,
};
use crate::autoclaimer::state::{ExecutionData, State};
use crate::common::{
    build_send_msg, build_stake_msg, authz_execute, AuthzMessageTypeV, ContractCommand,
    StakeContractExecuteMsg,
};
use crate::host::{
    Attribute, AttributeV, Bank, BankEntryV, CoinV, Env, Event, EventV, OutMsgV, Reply, ReplyOn,
    Response, ResponseV, SubMsg, SubMsgV, spec_balance,
};
use crate::text::{dec_str, u64_to_string, u128_to_string};
use vstd::string::StringExecFns;

/// The outcome of one settled action, as reported in events.
pub enum ActionResult {
    Success,
    Failed,
}

/// What an outcome reads as in an event attribute.
pub open spec fn action_result_str(ok: bool) -> Seq<char> {
    if ok {
        "ok"@
    } else {
        "failed"@
    }
}

impl ActionResult {
    /// The outcome's attribute value.
    pub fn as_str(&self) -> (r: &'static str)
        ensures
            r@ == action_result_str(self is Success),
    {
        match self {
            ActionResult::Success => "ok",
            ActionResult::Failed => "failed",
        }
    }
}

// ---------------------------------------------------------------------------
// The events the handlers emit.
// ---------------------------------------------------------------------------

/// The event of a claim that settled successfully and was split.
pub open spec fn claim_ok_event(
    id: u64,
    protocol: Seq<char>,
    user: Seq<char>,
    denom: Seq<char>,
    claimed: u128,
    fee: u128,
    stake: u128,
    time_nanos: u64,
) -> EventV {
    EventV {
        ty: contract_event_ty(),
        attributes: seq![
            AttributeV { key: "action"@, value: "claim"@ },
            AttributeV { key: "msg_id"@, value: dec_str(id as int) },
            AttributeV { key: "result"@, value: "ok"@ },
            AttributeV { key: "protocol"@, value: protocol },
            AttributeV { key: "address"@, value: user },
            AttributeV { key: "token"@, value: denom },
            AttributeV { key: "tokens_claimed"@, value: dec_str(claimed as int) },
            AttributeV { key: "fee_to_charge"@, value: dec_str(fee as int) },
            AttributeV { key: "tokens_to_stake"@, value: dec_str(stake as int) },
            AttributeV { key: "timestamp"@, value: dec_str((time_nanos / 1_000_000_000) as int) },
        ],
    }
}

/// The event of a claim whose dispatched operation failed in the external
/// contract.
pub open spec fn claim_failed_event(
    id: u64,
    protocol: Seq<char>,
    user: Seq<char>,
    error: Seq<char>,
) -> EventV {
    EventV {
        ty: contract_event_ty(),
        attributes: seq![
            AttributeV { key: "action"@, value: "claim"@ },
            AttributeV { key: "msg_id"@, value: dec_str(id as int) },
            AttributeV { key: "result"@, value: "failed"@ },
            AttributeV { key: "protocol"@, value: protocol },
            AttributeV { key: "address"@, value: user },
            AttributeV { key: "error"@, value: error },
        ],
    }
}

/// The purely observational event of a settled stake or fee-send stage.
pub open spec fn stage_event(action: Seq<char>, id: u64, outcome: crate::host::SubMsgResultV) -> EventV {
    EventV {
        ty: contract_event_ty(),
        attributes: if outcome is Success {
            seq![
                AttributeV { key: "action"@, value: action },
                AttributeV { key: "msg_id"@, value: dec_str(id as int) },
                AttributeV { key: "result"@, value: "ok"@ },
            ]
        } else {
            seq![
                AttributeV { key: "action"@, value: action },
                AttributeV { key: "msg_id"@, value: dec_str(id as int) },
                AttributeV { key: "result"@, value: "failed"@ },
                AttributeV { key: "error"@, value: outcome->Failure_error },
            ]
        },
    }
}

/// The event of a settled claim-only stage.
pub open spec fn claim_only_event(
    id: u64,
    protocol: Seq<char>,
    user: Seq<char>,
    contract: Seq<char>,
    outcome: crate::host::SubMsgResultV,
    time_nanos: u64,
) -> EventV {
    EventV {
        ty: contract_event_ty(),
        attributes: seq![
            AttributeV { key: "action"@, value: "claim"@ },
            AttributeV { key: "msg_id"@, value: dec_str(id as int) },
            AttributeV {
                key: "result"@,
                value: action_result_str(outcome is Success),
            },
            AttributeV { key: "protocol"@, value: protocol },
            AttributeV { key: "address"@, value: user },
            AttributeV { key: "contract_address"@, value: contract },
        ] + (if outcome is Success {
            seq![
                AttributeV {
                    key: "timestamp"@,
                    value: dec_str((time_nanos / 1_000_000_000) as int),
                },
            ]
        } else {
            seq![AttributeV { key: "error"@, value: outcome->Failure_error }]
        }),
    }
}

/// A response that only reports: one event, nothing dispatched.
pub open spec fn event_only_response(resp: ResponseV, e: EventV) -> bool {
    &&& resp.messages == Seq::<SubMsgV>::empty()
    &&& resp.attributes == Seq::<AttributeV>::empty()
    &&& resp.events == seq![e]
}

/// The stake operation dispatched after a successful claim.
pub open spec fn stake_msg_v(
    user: Seq<char>,
    provider: crate::common::StakingProvider,
    stake_contract: Seq<char>,
    stake: u128,
    denom: Seq<char>,
    stake_id: u64,
) -> SubMsgV {
    SubMsgV {
        id: stake_id,
        msg: authz_execute(
            user,
            stake_contract,
            ContractCommand::StakeTokens(StakeContractExecuteMsg::Stake {}),
            seq![CoinV { denom: denom, amount: stake }],
        ),
        reply_on: ReplyOn::Always,
    }
}

/// The fee transfer dispatched after a successful claim with a positive fee.
pub open spec fn fee_msg_v(
    user: Seq<char>,
    fee_address: Seq<char>,
    fee: u128,
    denom: Seq<char>,
    send_id: u64,
) -> SubMsgV {
    SubMsgV {
        id: send_id,
        msg: OutMsgV::Authz {
            user: user,
            msg_type: AuthzMessageTypeV::Send {
                to_address: fee_address,
                amount: seq![CoinV { denom: denom, amount: fee }],
            },
        },
        reply_on: ReplyOn::Always,
    }
}

// ---------------------------------------------------------------------------
// The claim-stage handler.
// ---------------------------------------------------------------------------

/// What settling the claim stage of one claim-and-stake pipeline does, for
/// every outcome the host may report.
pub open spec fn claim_reply_post(
    pre: &State,
    post: &State,
    bankv: Seq<BankEntryV>,
    time_nanos: u64,
    msg: Reply,
    r: &Result<Response, ContractError>,
) -> bool {
    &&& (!pre.pending_cs().dom().contains(msg.id) ==> r is Err && r->Err_0@
        == (crate::autoclaimer::error::ContractErrorV::InvalidReplyId { id: msg.id }) && post
        == pre)
    &&& (pre.pending_cs().dom().contains(msg.id) ==> {
        let ctx = pre.pending_cs()[msg.id];
        let u = ctx.0;
        let p = ctx.1;
        let bal_before = ctx.2;
        let cfg = pre.registry()[p];
        &&& (msg@.result is Failure ==> r is Ok && post == pre && event_only_response(
            r->Ok_0@,
            claim_failed_event(msg.id, p, u, msg@.result->Failure_error),
        ))
        &&& (msg@.result is Success && !(cfg.strategy is ClaimAndStakeDaoDaoCwRewards) ==> r
            is Err && r->Err_0@ == (crate::autoclaimer::error::ContractErrorV::InvalidStrategy {
            strategy: strategy_name(cfg.strategy),
        }) && post == pre)
        &&& (msg@.result is Success && cfg.strategy is ClaimAndStakeDaoDaoCwRewards ==> {
            let denom = cs_reward_denom(cfg.strategy);
            let bal_after = spec_balance(bankv, u, denom);
            &&& (bal_after < bal_before ==> r is Err && r->Err_0@
                == (crate::autoclaimer::error::ContractErrorV::NoRewards {
                msg: "No rewards claimed"@,
            }) && post == pre)
            &&& (bal_after >= bal_before ==> {
                let claimed = (bal_after - bal_before) as u128;
                let fee = fee_of(claimed, cfg.fee_percentage) as u128;
                let stake = (claimed - fee) as u128;
                let stake_id = (CLAIM_AND_STAKE_STAKE_BASE_ID + (msg.id
                    - CLAIM_AND_STAKE_CLAIM_BASE_ID)) as u64;
                let send_id = (CLAIM_AND_STAKE_SEND_BASE_ID + (msg.id
                    - CLAIM_AND_STAKE_CLAIM_BASE_ID)) as u64;
                &&& r is Ok
                &&& r->Ok_0@.messages == (if fee > 0 {
                    seq![
                        fee_msg_v(u, cfg.fee_address, fee, denom, send_id),
                        stake_msg_v(
                            u,
                            cs_provider(cfg.strategy),
                            cs_stake_contract(cfg.strategy),
                            stake,
                            denom,
                            stake_id,
                        ),
                    ]
                } else {
                    seq![
                        stake_msg_v(
                            u,
                            cs_provider(cfg.strategy),
                            cs_stake_contract(cfg.strategy),
                            stake,
                            denom,
                            stake_id,
                        ),
                    ]
                })
                &&& r->Ok_0@.attributes == Seq::<AttributeV>::empty()
                &&& r->Ok_0@.events == seq![
                    claim_ok_event(msg.id, p, u, denom, claimed, fee, stake, time_nanos),
                ]
                &&& post.exec_data() == pre.exec_data().insert((u, p), time_nanos)
                &&& post.subs() == pre.subs()
                &&& post.registry() == pre.registry()
                &&& post.registry_order() == pre.registry_order()
                &&& post.pending_cs() == pre.pending_cs()
                &&& post.pending_co() == pre.pending_co()
                &&& post.config == pre.config
            })
        })
    })
}

/// Settles the claim stage of one claim-and-stake pipeline. A handle with no
/// recorded context is a consistency violation and fails the invocation. A
/// failed claim is terminal: only an event records it, and the last-claim
/// time is not touched. A successful claim computes the claimed amount from
/// the balance delta, splits it into fee and stake exactly, dispatches the
/// stake (and the fee transfer when the fee is positive) under handles
/// offset from the claim handle into their own ranges, and records the
/// claim time for the pair. The pending context itself is never removed.
pub fn process_claim_and_stake_claim_reply(
    state: &mut State,
    bank: &Bank,
    env: &Env,
    msg: Reply,
) -> (r: Result<Response, ContractError>)
    requires
        old(state).wf(),
    ensures
        final(state).wf(),
        claim_reply_post(old(state), final(state), bank@, env.time_nanos, msg, &r),
{
    let id = msg.id;
    let (user, protocol, balance_before) = match state.pending_claim_and_stake_data.get(&id) {
        Some(t) => (t.0.clone(), t.1.clone(), t.2),
        None => {
            return Err(ContractError::InvalidReplyId { id });
        },
    };
    let ghost u = user@;
    let ghost p = protocol@;
    assert((u, p, balance_before) == old(state).pending_cs()[id]);
    // A recorded claim handle always lies in the claim range, so the
    // child-stage handles below stay in their own ranges.
    assert(old(state).pending_cs().dom().contains(id));
    assert(CLAIM_AND_STAKE_CLAIM_BASE_ID <= id < CLAIM_AND_STAKE_STAKE_BASE_ID);

    let protocol_config = match state.protocol_config.get(protocol.as_str()) {
        Some(c) => c,
        None => {
            proof {
                assert(old(state).registry().dom().contains(p));
                assert(state.protocol_config.as_map().dom().contains(p));
                assert(false);
            }
            return Err(ContractError::InvalidProtocol { protocol });
        },
    };
    assert(protocol_config@ == old(state).registry()[p]);

    match msg.result {
        crate::host::SubMsgResult::Success { events: _ } => {
            match &protocol_config.strategy {
                ProtocolStrategy::ClaimAndStakeDaoDaoCwRewards {
                    provider,
                    claim_contract_address: _,
                    stake_contract_address,
                    reward_denom,
                } => {
                    let ghost cfg = old(state).registry()[p];
                    proof {
                        assert(cs_reward_denom(cfg.strategy) == reward_denom@);
                        assert(cs_stake_contract(cfg.strategy) == stake_contract_address@);
                        assert(cs_provider(cfg.strategy) == *provider);
                        assert(cfg.valid());
                    }
                    let balance_after = bank.balance_of(user.as_str(), reward_denom.as_str());
                    if balance_after < balance_before {
                        return Err(
                            ContractError::NoRewards {
                                msg: String::from_str("No rewards claimed"),
                            },
                        );
                    }
                    let amount_claimed = balance_after - balance_before;
                    let (fee_amount, stake_amount) = split_claimed(
                        amount_claimed,
                        protocol_config.fee_percentage,
                    );
                    let offset = id - CLAIM_AND_STAKE_CLAIM_BASE_ID;
                    let stake_id = CLAIM_AND_STAKE_STAKE_BASE_ID + offset;
                    let send_id = CLAIM_AND_STAKE_SEND_BASE_ID + offset;

                    let stake_msg = build_stake_msg(
                        user.clone(),
                        *provider,
                        stake_contract_address.clone(),
                        stake_amount,
                        reward_denom.clone(),
                    );
                    let fee_address = protocol_config.fee_address.clone();
                    let reward_denom_copy = reward_denom.clone();

                    let mut submessages: Vec<SubMsg> = Vec::new();
                    if fee_amount > 0 {
                        let send_msg = build_send_msg(
                            user.clone(),
                            fee_address,
                            fee_amount,
                            reward_denom_copy.clone(),
                        );
                        submessages.push(
                            SubMsg { id: send_id, msg: send_msg, reply_on: ReplyOn::Always },
                        );
                    }
                    submessages.push(
                        SubMsg { id: stake_id, msg: stake_msg, reply_on: ReplyOn::Always },
                    );
                    proof {
                        if fee_amount > 0 {
                            assert(crate::autoclaimer::batch::smv(submessages@) =~= seq![
                                fee_msg_v(u, cfg.fee_address, fee_amount, cs_reward_denom(cfg.strategy), send_id),
                                stake_msg_v(u, cs_provider(cfg.strategy), cs_stake_contract(cfg.strategy), stake_amount, cs_reward_denom(cfg.strategy), stake_id),
                            ]);
                        } else {
                            assert(crate::autoclaimer::batch::smv(submessages@) =~= seq![
                                stake_msg_v(u, cs_provider(cfg.strategy), cs_stake_contract(cfg.strategy), stake_amount, cs_reward_denom(cfg.strategy), stake_id),
                            ]);
                        }
                    }

                    // The claim stage succeeded: record the claim time,
                    // whatever becomes of the follow-up stages.
                    let ghost pre_exec = *state;
                    state.user_execution_data.insert(
                        (user.clone(), protocol.clone()),
                        ExecutionData { last_autoclaim: env.time_nanos },
                    );
                    proof {
                        assert(state.exec_data() =~= pre_exec.exec_data().insert(
                            (u, p),
                            env.time_nanos,
                        ));
                        assert(state.subs() =~= pre_exec.subs());
                        assert(state.registry() =~= pre_exec.registry());
                        assert(state.pending_cs() =~= pre_exec.pending_cs());
                        assert(state.pending_co() =~= pre_exec.pending_co());
                    }

                    let mut attributes: Vec<Attribute> = Vec::new();
                    attributes.push(Attribute::new("action", String::from_str("claim")));
                    attributes.push(Attribute::new("msg_id", u64_to_string(id)));
                    attributes.push(Attribute::new("result", String::from_str("ok")));
                    attributes.push(Attribute::new("protocol", protocol));
                    attributes.push(Attribute::new("address", user));
                    attributes.push(Attribute::new("token", reward_denom_copy));
                    attributes.push(Attribute::new("tokens_claimed", u128_to_string(amount_claimed)));
                    attributes.push(Attribute::new("fee_to_charge", u128_to_string(fee_amount)));
                    attributes.push(Attribute::new("tokens_to_stake", u128_to_string(stake_amount)));
                    attributes.push(
                        Attribute::new("timestamp", u64_to_string(env.time_nanos / 1_000_000_000)),
                    );
                    let event = Event {
                        ty: String::from_str("autorujira.autoclaimer"),
                        attributes,
                    };
                    proof {
                        assert(event@.attributes =~= claim_ok_event(
                            id,
                            p,
                            u,
                            cs_reward_denom(cfg.strategy),
                            amount_claimed,
                            fee_amount,
                            stake_amount,
                            env.time_nanos,
                        ).attributes);
                    }
                    let mut events: Vec<Event> = Vec::new();
                    events.push(event);
                    let resp = Response { messages: submessages, attributes: Vec::new(), events };
                    proof {
                        assert(resp@.attributes =~= Seq::<AttributeV>::empty());
                        assert(resp@.events =~= seq![
                            claim_ok_event(
                                id,
                                p,
                                u,
                                cs_reward_denom(cfg.strategy),
                                amount_claimed,
                                fee_amount,
                                stake_amount,
                                env.time_nanos,
                            ),
                        ]);
                    }
                    Ok(resp)
                },
                ProtocolStrategy::ClaimOnlyFIN { .. } => {
                    let strategy_str = protocol_config.strategy.as_str();
                    Err(ContractError::InvalidStrategy { strategy: String::from_str(strategy_str) })
                },
            }
        },
        crate::host::SubMsgResult::Failure { error } => {
            let mut attributes: Vec<Attribute> = Vec::new();
            attributes.push(Attribute::new("action", String::from_str("claim")));
            attributes.push(Attribute::new("msg_id", u64_to_string(id)));
            attributes.push(Attribute::new("result", String::from_str("failed")));
            attributes.push(Attribute::new("protocol", protocol));
            attributes.push(Attribute::new("address", user));
            attributes.push(Attribute::new("error", error));
            let event = Event { ty: String::from_str("autorujira.autoclaimer"), attributes };
            proof {
                assert(event@.attributes =~= claim_failed_event(
                    id,
                    p,
                    u,
                    msg@.result->Failure_error,
                ).attributes);
            }
            let mut events: Vec<Event> = Vec::new();
            events.push(event);
            let resp = Response { messages: Vec::new(), attributes: Vec::new(), events };
            proof {
                assert(resp@.messages =~= Seq::<SubMsgV>::empty());
                assert(resp@.attributes =~= Seq::<AttributeV>::empty());
                assert(resp@.events =~= seq![
                    claim_failed_event(id, p, u, msg@.result->Failure_error),
                ]);
            }
            Ok(resp)
        },
    }
}

// ---------------------------------------------------------------------------
// The purely observational stage handlers.
// ---------------------------------------------------------------------------

/// Reports a settled stage under the given action name.
fn process_stage_reply(action: &str, msg: Reply) -> (r: Result<Response, ContractError>)
    ensures
        r is Ok,
        event_only_response(r->Ok_0@, stage_event(action@, msg.id, msg@.result)),
{
    let mut attributes: Vec<Attribute> = Vec::new();
    attributes.push(Attribute::new("action", String::from_str(action)));
    attributes.push(Attribute::new("msg_id", u64_to_string(msg.id)));
    match msg.result {
        crate::host::SubMsgResult::Success { events: _ } => {
            attributes.push(Attribute::new("result", String::from_str("ok")));
        },
        crate::host::SubMsgResult::Failure { error } => {
            attributes.push(Attribute::new("result", String::from_str("failed")));
            attributes.push(Attribute::new("error", error));
        },
    }
    let event = Event { ty: String::from_str("autorujira.autoclaimer"), attributes };
    proof {
        assert(event@.attributes =~= stage_event(action@, msg.id, msg@.result).attributes);
    }
    let mut events: Vec<Event> = Vec::new();
    events.push(event);
    let resp = Response { messages: Vec::new(), attributes: Vec::new(), events };
    proof {
        assert(resp@.messages =~= Seq::<SubMsgV>::empty());
        assert(resp@.attributes =~= Seq::<AttributeV>::empty());
        assert(resp@.events =~= seq![stage_event(action@, msg.id, msg@.result)]);
    }
    Ok(resp)
}

/// Settles a stake stage: purely observational, no compensation is taken if
/// it failed after its claim succeeded.
pub fn process_claim_and_stake_stake_reply(msg: Reply) -> (r: Result<Response, ContractError>)
    ensures
        r is Ok,
        event_only_response(r->Ok_0@, stage_event("stake"@, msg.id, msg@.result)),
{
    process_stage_reply("stake", msg)
}

/// Settles a fee-send stage: purely observational.
pub fn process_claim_and_stake_send_reply(msg: Reply) -> (r: Result<Response, ContractError>)
    ensures
        r is Ok,
        event_only_response(r->Ok_0@, stage_event("charge_fee"@, msg.id, msg@.result)),
{
    process_stage_reply("charge_fee", msg)
}

// ---------------------------------------------------------------------------
// The claim-only handler.
// ---------------------------------------------------------------------------

/// What settling a claim-only stage does, for every outcome the host may
/// report.
pub open spec fn claim_only_reply_post(
    pre: &State,
    post: &State,
    time_nanos: u64,
    msg: Reply,
    r: &Result<Response, ContractError>,
) -> bool {
    &&& (!pre.pending_co().dom().contains(msg.id) ==> r is Err && r->Err_0@
        == (crate::autoclaimer::error::ContractErrorV::InvalidReplyId { id: msg.id }) && post
        == pre)
    &&& (pre.pending_co().dom().contains(msg.id) ==> {
        let ctx = pre.pending_co()[msg.id];
        let p = ctx.0;
        let u = ctx.1;
        let c = ctx.2;
        &&& r is Ok
        &&& event_only_response(
            r->Ok_0@,
            claim_only_event(msg.id, p, u, c, msg@.result, time_nanos),
        )
        &&& (msg@.result is Success ==> post.exec_data() == pre.exec_data().insert(
            (u, p),
            time_nanos,
        ))
        &&& (msg@.result is Failure ==> post == pre)
        &&& post.subs() == pre.subs()
        &&& post.registry() == pre.registry()
        &&& post.registry_order() == pre.registry_order()
        &&& post.pending_cs() == pre.pending_cs()
        &&& post.pending_co() == pre.pending_co()
        &&& post.config == pre.config
    })
}

/// Settles a claim-only stage: a successful withdraw records the claim time
/// for its (user, protocol) pair; a failed one is only reported. A handle
/// with no recorded context fails the invocation.
pub fn process_claim_only_claim_reply(state: &mut State, env: &Env, msg: Reply) -> (r: Result<
    Response,
    ContractError,
>)
    requires
        old(state).wf(),
    ensures
        final(state).wf(),
        claim_only_reply_post(old(state), final(state), env.time_nanos, msg, &r),
{
    let id = msg.id;
    let (protocol, user, contract_address) = match state.pending_claim_only_data.get(&id) {
        Some(t) => (t.0.clone(), t.1.clone(), t.2.clone()),
        None => {
            return Err(ContractError::InvalidReplyId { id });
        },
    };
    let ghost p = protocol@;
    let ghost u = user@;
    let ghost c = contract_address@;
    assert((p, u, c) == old(state).pending_co()[id]);

    let mut attributes: Vec<Attribute> = Vec::new();
    attributes.push(Attribute::new("action", String::from_str("claim")));
    attributes.push(Attribute::new("msg_id", u64_to_string(id)));
    let succeeded = match &msg.result {
        crate::host::SubMsgResult::Success { .. } => true,
        crate::host::SubMsgResult::Failure { .. } => false,
    };
    if succeeded {
        attributes.push(Attribute::new("result", String::from_str("ok")));
    } else {
        attributes.push(Attribute::new("result", String::from_str("failed")));
    }
    attributes.push(Attribute::new("protocol", protocol.clone()));
    attributes.push(Attribute::new("address", user.clone()));
    attributes.push(Attribute::new("contract_address", contract_address));

    match msg.result {
        crate::host::SubMsgResult::Success { events: _ } => {
            attributes.push(
                Attribute::new("timestamp", u64_to_string(env.time_nanos / 1_000_000_000)),
            );
            let ghost pre_exec = *state;
            state.user_execution_data.insert(
                (user, protocol),
                ExecutionData { last_autoclaim: env.time_nanos },
            );
            proof {
                assert(state.exec_data() =~= pre_exec.exec_data().insert((u, p), env.time_nanos));
                assert(state.subs() =~= pre_exec.subs());
                assert(state.registry() =~= pre_exec.registry());
                assert(state.pending_cs() =~= pre_exec.pending_cs());
                assert(state.pending_co() =~= pre_exec.pending_co());
            }
        },
        crate::host::SubMsgResult::Failure { error } => {
            attributes.push(Attribute::new("error", error));
        },
    }

    let event = Event { ty: String::from_str("autorujira.autoclaimer"), attributes };
    proof {
        assert(event@.attributes =~= claim_only_event(
            id,
            p,
            u,
            c,
            msg@.result,
            env.time_nanos,
        ).attributes);
    }
    let mut events: Vec<Event> = Vec::new();
    events.push(event);
    let resp = Response { messages: Vec::new(), attributes: Vec::new(), events };
    proof {
        assert(resp@.messages =~= Seq::<SubMsgV>::empty());
        assert(resp@.attributes =~= Seq::<AttributeV>::empty());
        assert(resp@.events =~= seq![claim_only_event(id, p, u, c, msg@.result, env.time_nanos)]);
    }
    Ok(resp)
}

/// Replies are processed independently of the order the host delivers them
/// in: settling the claim stages of two different (user, protocol) pairs
/// changes the execution metadata to the same result either way around, so
/// no business logic may and none does depend on cross-chain delivery order.
pub proof fn lemma_settlement_order_independent(
    exec_data: Map<(Seq<char>, Seq<char>), u64>,
    pair1: (Seq<char>, Seq<char>),
    pair2: (Seq<char>, Seq<char>),
    t1: u64,
    t2: u64,
)
    requires
        pair1 != pair2,
    ensures
        exec_data.insert(pair1, t1).insert(pair2, t2) == exec_data.insert(pair2, t2).insert(
            pair1,
            t1,
        ),
{
    assert(exec_data.insert(pair1, t1).insert(pair2, t2) =~= exec_data.insert(pair2, t2).insert(
        pair1,
        t1,
    ));
}

// ---------------------------------------------------------------------------
// The demultiplexer.
// ---------------------------------------------------------------------------

/// Routes a reply by the numeric range its handle falls in: the handle alone
/// determines the stage that settled. A handle below every range was never
/// assigned by this contract and is a consistency violation.
pub fn reply(state: &mut State, bank: &Bank, env: &Env, msg: Reply) -> (r: Result<
    Response,
    ContractError,
>)
    requires
        old(state).wf(),
    ensures
        final(state).wf(),
        msg.id < CLAIM_AND_STAKE_CLAIM_BASE_ID ==> r is Err && r->Err_0@
            == (crate::autoclaimer::error::ContractErrorV::InvalidReplyId { id: msg.id })
            && *final(state) == *old(state),
        CLAIM_AND_STAKE_CLAIM_BASE_ID <= msg.id < CLAIM_AND_STAKE_STAKE_BASE_ID
            ==> claim_reply_post(old(state), final(state), bank@, env.time_nanos, msg, &r),
        CLAIM_AND_STAKE_STAKE_BASE_ID <= msg.id < CLAIM_AND_STAKE_SEND_BASE_ID ==> r is Ok
            && event_only_response(r->Ok_0@, stage_event("stake"@, msg.id, msg@.result))
            && *final(state) == *old(state),
        CLAIM_AND_STAKE_SEND_BASE_ID <= msg.id < CLAIM_ONLY_CLAIM_BASE_ID ==> r is Ok
            && event_only_response(r->Ok_0@, stage_event("charge_fee"@, msg.id, msg@.result))
            && *final(state) == *old(state),
        msg.id >= CLAIM_ONLY_CLAIM_BASE_ID ==> claim_only_reply_post(
            old(state),
            final(state),
            env.time_nanos,
            msg,
            &r,
        ),
{
    if msg.id >= CLAIM_AND_STAKE_CLAIM_BASE_ID && msg.id < CLAIM_AND_STAKE_STAKE_BASE_ID {
        process_claim_and_stake_claim_reply(state, bank, env, msg)
    } else if msg.id >= CLAIM_AND_STAKE_STAKE_BASE_ID && msg.id < CLAIM_AND_STAKE_SEND_BASE_ID {
        process_claim_and_stake_stake_reply(msg)
    } else if msg.id >= CLAIM_AND_STAKE_SEND_BASE_ID && msg.id < CLAIM_ONLY_CLAIM_BASE_ID {
        process_claim_and_stake_send_reply(msg)
    } else if msg.id >= CLAIM_ONLY_CLAIM_BASE_ID {
        process_claim_only_claim_reply(state, env, msg)
    } else {
        Err(ContractError::InvalidReplyId { id: msg.id })
    }
}

} // verus!

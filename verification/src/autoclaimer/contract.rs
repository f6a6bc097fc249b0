//! Instantiation, configuration management, protocol validation, and the
//! query entry points of the auto-claimer.

use vstd::prelude::*;

verus! {

use crate::autoclaimer::error::ContractError;
use crate::autoclaimer::msg::{
    ConfigResponse, InstantiateMsg, OldProtocolConfig, ProtocolConfig, ProtocolConfigV,
    ProtocolStrategy, ProtocolStrategyV, QueryMsg, QueryResponse, UpdateConfigMsg,
};
use crate::autoclaimer::state::{Config, ConfigV, State};
use crate::autoclaimer::batch::{
    co_post, cs_post, execute_claim_and_stake, execute_claim_only, pairs_view, total_pairs,
    ups_view,
};
use crate::autoclaimer::error::ContractErrorV;
use crate::autoclaimer::msg::ExecuteMsg;
use crate::autoclaimer::subs::{
    query_get_subscribed_protocols, query_get_subscriptions, subscribe, subscribe_post,
    subscribed_protocols_response_ok, subscriptions_response_ok, unsubscribe, unsubscribe_post,
};
use crate::host::{Bank, MessageInfo};
use crate::host::{Attribute, AttributeV, Response, ResponseV, EventV, SubMsgV};
use crate::text::strings_view;
use vstd::string::StringExecFns;

// ---------------------------------------------------------------------------
// Registry upserts.
// ---------------------------------------------------------------------------

/// The views of a vector of registry entries.
pub open spec fn cfgs_view(v: Seq<ProtocolConfig>) -> Seq<ProtocolConfigV> {
    v.map_values(|c: ProtocolConfig| c@)
}

/// The registry after upserting the entries in order, each keyed by its own
/// protocol identifier; a later entry overwrites an earlier one with the
/// same identifier, and nothing is ever removed.
pub open spec fn upsert_configs(
    m: Map<Seq<char>, ProtocolConfigV>,
    cfgs: Seq<ProtocolConfigV>,
) -> Map<Seq<char>, ProtocolConfigV>
    decreases cfgs.len(),
{
    if cfgs.len() == 0 {
        m
    } else {
        upsert_configs(m.insert(cfgs[0].protocol, cfgs[0]), cfgs.skip(1))
    }
}

/// All the given entries carry a fee ratio of at most 1.
pub open spec fn all_valid(cfgs: Seq<ProtocolConfigV>) -> bool {
    forall|i: int| 0 <= i < cfgs.len() ==> (#[trigger] cfgs[i]).valid()
}

/// Upserts every entry of `configs` into the registry.
fn store_configs(state: &mut State, configs: &Vec<ProtocolConfig>)
    requires
        old(state).tables_wf(),
        all_valid(cfgs_view(configs@)),
    ensures
        final(state).tables_wf(),
        final(state).registry() == upsert_configs(old(state).registry(), cfgs_view(configs@)),
        final(state).subs() == old(state).subs(),
        final(state).exec_data() == old(state).exec_data(),
        final(state).pending_cs() == old(state).pending_cs(),
        final(state).pending_co() == old(state).pending_co(),
        final(state).config == old(state).config,
        final(state).subscriptions == old(state).subscriptions,
        final(state).user_execution_data == old(state).user_execution_data,
        final(state).pending_claim_and_stake_data == old(state).pending_claim_and_stake_data,
        final(state).pending_claim_only_data == old(state).pending_claim_only_data,
{
    let ghost cfgs = cfgs_view(configs@);
    let n = configs.len();
    let mut i: usize = 0;
    proof {
        assert(cfgs.skip(0) =~= cfgs);
    }
    while i < n
        invariant
            i <= n,
            n == configs@.len(),
            cfgs == cfgs_view(configs@),
            all_valid(cfgs),
            state.tables_wf(),
            upsert_configs(old(state).registry(), cfgs) == upsert_configs(
                state.registry(),
                cfgs.skip(i as int),
            ),
            forall|k: Seq<char>|
                old(state).registry().dom().contains(k) ==> state.registry().dom().contains(k),
            state.subscriptions == old(state).subscriptions,
            state.user_execution_data == old(state).user_execution_data,
            state.pending_claim_and_stake_data == old(state).pending_claim_and_stake_data,
            state.pending_claim_only_data == old(state).pending_claim_only_data,
            state.config == old(state).config,
        decreases n - i,
    {
        let ghost pre = *state;
        let cfg = configs[i].clone_config();
        let key = cfg.protocol.clone();
        proof {
            assert(cfg@ == cfgs[i as int]);
        }
        state.protocol_config.insert(key, cfg);
        proof {
            assert(state.registry() =~= pre.registry().insert(cfgs[i as int].protocol, cfgs[i as int]));
            assert(cfgs.skip(i as int)[0] == cfgs[i as int]);
            assert(cfgs.skip(i as int).skip(1) =~= cfgs.skip(i as int + 1));
            State::lemma_tables_wf_registry_grown(&pre, state);
        }
        i = i + 1;
    }
    proof {
        assert(cfgs.skip(n as int) =~= Seq::<ProtocolConfigV>::empty());
        assert(state.subs() =~= old(state).subs());
        assert(state.exec_data() =~= old(state).exec_data());
        assert(state.pending_cs() =~= old(state).pending_cs());
        assert(state.pending_co() =~= old(state).pending_co());
    }
}

/// A response that carries only one action attribute.
pub open spec fn action_only_response(resp: ResponseV, action: Seq<char>) -> bool {
    &&& resp.messages == Seq::<SubMsgV>::empty()
    &&& resp.events == Seq::<EventV>::empty()
    &&& resp.attributes.len() == 1
    &&& resp.attributes[0] == (AttributeV { key: "action"@, value: action })
}

/// Builds a response that carries only one action attribute.
fn make_action_response(action: &str) -> (r: Response)
    ensures
        action_only_response(r@, action@),
{
    let mut attributes: Vec<Attribute> = Vec::new();
    attributes.push(Attribute::new("action", String::from_str(action)));
    let r = Response { messages: Vec::new(), attributes, events: Vec::new() };
    proof {
        assert(r@.messages =~= Seq::<SubMsgV>::empty());
        assert(r@.events =~= Seq::<EventV>::empty());
    }
    r
}

// ---------------------------------------------------------------------------
// Validation.
// ---------------------------------------------------------------------------

/// The first named protocol, in input order, that the registry does not
/// hold.
pub open spec fn first_unknown(
    reg: Map<Seq<char>, ProtocolConfigV>,
    ps: Seq<Seq<char>>,
) -> Option<Seq<char>>
    decreases ps.len(),
{
    if ps.len() == 0 {
        None::<Seq<char>>
    } else if !reg.dom().contains(ps[0]) {
        Some(ps[0])
    } else {
        first_unknown(reg, ps.skip(1))
    }
}

/// Checks that every named protocol is registered; a single unknown name
/// rejects the whole call, naming the first offender, so nothing partial
/// ever happens downstream.
pub fn validate_protocols(state: &State, protocols: &Vec<String>) -> (r: Result<
    (),
    ContractError,
>)
    requires
        state.tables_wf(),
    ensures
        r is Ok <==> (forall|i: int|
            0 <= i < protocols@.len() ==> state.registry().dom().contains(
                #[trigger] strings_view(protocols@)[i],
            )),
        r is Err ==> {
            let e = r->Err_0@;
            &&& e is InvalidProtocol
            &&& Some(e->InvalidProtocol_protocol) == first_unknown(
                state.registry(),
                strings_view(protocols@),
            )
        },
{
    let ghost ps = strings_view(protocols@);
    let n = protocols.len();
    let mut i: usize = 0;
    proof {
        assert(ps.skip(0) =~= ps);
    }
    while i < n
        invariant
            i <= n,
            n == protocols@.len(),
            ps == strings_view(protocols@),
            state.tables_wf(),
            first_unknown(state.registry(), ps) == first_unknown(
                state.registry(),
                ps.skip(i as int),
            ),
            forall|j: int|
                0 <= j < i ==> state.registry().dom().contains(
                    #[trigger] strings_view(protocols@)[j],
                ),
        decreases n - i,
    {
        proof {
            assert(ps.skip(i as int)[0] == ps[i as int]);
            assert(ps.skip(i as int).skip(1) =~= ps.skip(i as int + 1));
        }
        if state.protocol_config.get(protocols[i].as_str()).is_none() {
            assert(!state.registry().dom().contains(ps[i as int]));
            assert(first_unknown(state.registry(), ps) == Some(ps[i as int]));
            return Err(ContractError::InvalidProtocol { protocol: protocols[i].clone() });
        }
        assert(state.registry().dom().contains(strings_view(protocols@)[i as int]));
        i = i + 1;
    }
    proof {
        assert(ps.skip(n as int) =~= Seq::<Seq<char>>::empty());
    }
    Ok(())
}

// ---------------------------------------------------------------------------
// Instantiation and configuration.
// ---------------------------------------------------------------------------

/// Initializes the contract: stores the owner and batch cap and registers
/// the supplied protocol configurations, each under its own identifier.
pub fn instantiate(state: &mut State, msg: InstantiateMsg) -> (r: Result<Response, ContractError>)
    requires
        old(state).tables_wf(),
        all_valid(cfgs_view(msg.protocol_configs@)),
    ensures
        final(state).wf(),
        r is Ok,
        final(state).config == Some(
            Config { owner: msg.owner, max_parallel_claims: msg.max_parallel_claims },
        ),
        final(state).registry() == upsert_configs(
            old(state).registry(),
            cfgs_view(msg.protocol_configs@),
        ),
        final(state).subs() == old(state).subs(),
        final(state).exec_data() == old(state).exec_data(),
        final(state).pending_cs() == old(state).pending_cs(),
        final(state).pending_co() == old(state).pending_co(),
        action_only_response(r->Ok_0@, "instantiate"@),
{
    let config = Config { owner: msg.owner, max_parallel_claims: msg.max_parallel_claims };
    state.config = Some(config);
    proof {
        State::lemma_config_changed(old(state), state);
    }
    store_configs(state, &msg.protocol_configs);
    Ok(make_action_response("instantiate"))
}

/// The registry entry an old-layout row becomes: the same fee terms, the
/// claim-and-stake strategy assembled from the old flat fields.
pub open spec fn migrated_config(name: Seq<char>, o: &OldProtocolConfig) -> ProtocolConfigV {
    ProtocolConfigV {
        protocol: name,
        fee_percentage: o.fee_percentage,
        fee_address: o.fee_address@,
        strategy: ProtocolStrategyV::ClaimAndStakeDaoDaoCwRewards {
            provider: o.provider,
            claim_contract_address: o.claim_contract_address@,
            stake_contract_address: o.stake_contract_address@,
            reward_denom: o.reward_denom@,
        },
    }
}

/// The migrated views of a vector of old-layout rows.
pub open spec fn migrated_view(v: Seq<(String, OldProtocolConfig)>) -> Seq<ProtocolConfigV> {
    v.map_values(|e: (String, OldProtocolConfig)| migrated_config(e.0@, &e.1))
}

/// Rewrites old-layout registry rows into the current layout: each row keeps
/// its fee terms and becomes a claim-and-stake entry under its old key.
pub fn migrate(state: &mut State, old_rows: Vec<(String, OldProtocolConfig)>) -> (r: Result<
    Response,
    ContractError,
>)
    requires
        old(state).wf(),
        forall|i: int| 0 <= i < old_rows@.len() ==> (#[trigger] old_rows@[i]).1.fee_percentage
            <= crate::arith::FEE_DIVISOR,
    ensures
        final(state).wf(),
        r is Ok,
        final(state).registry() == upsert_configs(
            old(state).registry(),
            migrated_view(old_rows@),
        ),
        final(state).subs() == old(state).subs(),
        final(state).exec_data() == old(state).exec_data(),
        final(state).pending_cs() == old(state).pending_cs(),
        final(state).pending_co() == old(state).pending_co(),
        final(state).config == old(state).config,
        action_only_response(r->Ok_0@, "migrate_protocols"@),
{
    let n = old_rows.len();
    let mut configs: Vec<ProtocolConfig> = Vec::new();
    let mut i: usize = 0;
    while i < n
        invariant
            i <= n,
            n == old_rows@.len(),
            configs@.len() == i,
            forall|j: int|
                0 <= j < i ==> cfgs_view(configs@)[j] == #[trigger] migrated_view(old_rows@)[j],
            forall|j: int| 0 <= j < n ==> (#[trigger] old_rows@[j]).1.fee_percentage
                <= crate::arith::FEE_DIVISOR,
        decreases n - i,
    {
        let row = &old_rows[i];
        let new_config = ProtocolConfig {
            protocol: row.0.clone(),
            fee_percentage: row.1.fee_percentage,
            fee_address: row.1.fee_address.clone(),
            strategy: ProtocolStrategy::ClaimAndStakeDaoDaoCwRewards {
                provider: row.1.provider,
                claim_contract_address: row.1.claim_contract_address.clone(),
                stake_contract_address: row.1.stake_contract_address.clone(),
                reward_denom: row.1.reward_denom.clone(),
            },
        };
        let ghost nc = new_config@;
        let ghost before = configs@;
        proof {
            assert(nc == migrated_view(old_rows@)[i as int]);
        }
        configs.push(new_config);
        proof {
            assert forall|j: int| 0 <= j < i + 1 implies cfgs_view(configs@)[j] == #[trigger] migrated_view(
                old_rows@,
            )[j] by {
                if j < i {
                    assert(configs@[j] == before[j]);
                    assert(cfgs_view(before)[j] == migrated_view(old_rows@)[j]);
                } else {
                    assert(configs@[j]@ == nc);
                }
            }
        }
        i = i + 1;
    }
    proof {
        assert(cfgs_view(configs@) =~= migrated_view(old_rows@));
        assert(all_valid(cfgs_view(configs@)));
    }
    store_configs(state, &configs);
    Ok(make_action_response("migrate_protocols"))
}

/// What a successful configuration update did: each supplied field
/// overwrote the stored value, supplied registry entries were upserted, and
/// nothing was removed.
pub open spec fn update_config_post(
    pre: &State,
    post: &State,
    msg: &UpdateConfigMsg,
    resp: ResponseV,
) -> bool {
    &&& post.config is Some
    &&& post.config->0@ == (ConfigV {
        owner: if msg.owner is Some {
            msg.owner->0@
        } else {
            pre.owner()
        },
        max_parallel_claims: if msg.max_parallel_claims is Some {
            msg.max_parallel_claims->0
        } else {
            pre.max_parallel_claims()
        },
    })
    &&& post.registry() == upsert_configs(
        pre.registry(),
        if msg.protocol_configs is Some {
            cfgs_view(msg.protocol_configs->0@)
        } else {
            Seq::empty()
        },
    )
    &&& post.subs() == pre.subs()
    &&& post.exec_data() == pre.exec_data()
    &&& post.pending_cs() == pre.pending_cs()
    &&& post.pending_co() == pre.pending_co()
    &&& action_only_response(resp, "update_config"@)
}

/// Whether the supplied registry entries, if any, all carry a fee ratio of
/// at most 1.
pub open spec fn update_msg_valid(msg: &UpdateConfigMsg) -> bool {
    msg.protocol_configs is Some ==> all_valid(cfgs_view(msg.protocol_configs->0@))
}

/// Overwrites the stored configuration with each supplied field and upserts
/// any supplied registry entries; only the owner may call this.
pub fn update_config(state: &mut State, sender: &String, msg: UpdateConfigMsg) -> (r: Result<
    Response,
    ContractError,
>)
    requires
        old(state).wf(),
        update_msg_valid(&msg),
    ensures
        final(state).wf(),
        r is Ok <==> sender@ == old(state).owner(),
        r is Err ==> r->Err_0@ is Unauthorized && *final(state) == *old(state),
        r is Ok ==> update_config_post(old(state), final(state), &msg, r->Ok_0@),
{
    let owner_check = match &state.config {
        Some(c) => crate::text::str_eq(&c.owner, sender),
        None => false,
    };
    if !owner_check {
        return Err(ContractError::Unauthorized);
    }

    let (old_owner, old_max) = match &state.config {
        Some(c) => (c.owner.clone(), c.max_parallel_claims),
        None => (String::new(), 0u8),
    };
    let new_owner = match msg.owner {
        Some(o) => o,
        None => old_owner,
    };
    let new_max = match msg.max_parallel_claims {
        Some(m) => m,
        None => old_max,
    };
    state.config = Some(Config { owner: new_owner, max_parallel_claims: new_max });
    proof {
        State::lemma_config_changed(old(state), state);
    }
    let ghost mid = *state;

    match msg.protocol_configs {
        Some(configs) => {
            store_configs(state, &configs);
        },
        None => {
            proof {
                assert(state.registry() == upsert_configs(
                    old(state).registry(),
                    Seq::<ProtocolConfigV>::empty(),
                ));
            }
        },
    }
    proof {
        assert(state.subs() =~= old(state).subs());
        assert(state.exec_data() =~= old(state).exec_data());
        assert(state.pending_cs() =~= old(state).pending_cs());
        assert(state.pending_co() =~= old(state).pending_co());
    }
    Ok(make_action_response("update_config"))
}

// ---------------------------------------------------------------------------
// Queries.
// ---------------------------------------------------------------------------

/// The stored configuration: the owner, the batch cap, and every registry
/// entry in the store's key order.
pub open spec fn config_response_ok(s: &State, r: &ConfigResponse) -> bool {
    &&& r.owner@ == s.owner()
    &&& r.max_parallel_claims == s.max_parallel_claims()
    &&& r.protocol_configs@.len() == s.registry_order().len()
    &&& forall|i: int|
        0 <= i < r.protocol_configs@.len() ==> (#[trigger] r.protocol_configs@[i])@
            == s.registry()[s.registry_order()[i]]
}

/// Reads the stored configuration and the whole registry.
fn query_config(state: &State) -> (r: ConfigResponse)
    requires
        state.wf(),
    ensures
        config_response_ok(state, &r),
{
    let (owner, max_parallel_claims) = match &state.config {
        Some(c) => (c.owner.clone(), c.max_parallel_claims),
        None => (String::new(), 0u8),
    };
    let n = state.protocol_config.len();
    let mut protocol_configs: Vec<ProtocolConfig> = Vec::new();
    let mut i: usize = 0;
    while i < n
        invariant
            i <= n,
            state.wf(),
            n == state.protocol_config.entries@.len(),
            protocol_configs@.len() == i,
            forall|j: int|
                0 <= j < i ==> (#[trigger] protocol_configs@[j])@
                    == state.registry()[state.registry_order()[j]],
        decreases n - i,
    {
        proof {
            state.protocol_config.lemma_entry(i as int);
        }
        protocol_configs.push(state.protocol_config.entries[i].1.clone_config());
        i = i + 1;
    }
    ConfigResponse { owner, max_parallel_claims, protocol_configs }
}

/// Answers a query; the host boundary serializes the answer.
pub fn query(state: &State, msg: QueryMsg) -> (r: QueryResponse)
    requires
        state.wf(),
    ensures
        msg is Config ==> r is Config && config_response_ok(state, &r->Config_0),
        msg is GetSubscriptions ==> r is Subscriptions && subscriptions_response_ok(
            state,
            r->Subscriptions_0,
        ),
        msg is GetSubscribedProtocols ==> r is SubscribedProtocols
            && subscribed_protocols_response_ok(
            state,
            msg->GetSubscribedProtocols_user_address@,
            r->SubscribedProtocols_0,
        ),
{
    match msg {
        QueryMsg::Config {} => QueryResponse::Config(query_config(state)),
        QueryMsg::GetSubscriptions {} => QueryResponse::Subscriptions(
            query_get_subscriptions(state),
        ),
        QueryMsg::GetSubscribedProtocols { user_address } => QueryResponse::SubscribedProtocols(
            query_get_subscribed_protocols(state, user_address),
        ),
    }
}


// ---------------------------------------------------------------------------
// The execute dispatcher.
// ---------------------------------------------------------------------------

/// Handles one execute call. Any attached funds reject the call outright.
/// Configuration updates and both batch entry points are owner-only and
/// abort before anything is dispatched when the caller is not the owner or
/// the batch exceeds the configured cap; subscription calls first validate
/// every named protocol against the registry, so an unknown name aborts the
/// whole call with nothing changed.
pub fn execute(
    state: &mut State,
    bank: &Bank,
    info: MessageInfo,
    msg: ExecuteMsg,
) -> (r: Result<Response, ContractError>)
    requires
        old(state).wf(),
        msg is UpdateConfig ==> update_msg_valid(&msg->UpdateConfig_config),
    ensures
        final(state).wf(),
        info.funds@.len() > 0 ==> r is Err && r->Err_0@ is GenericError
            && r->Err_0@->GenericError_msg == "Don't send funds to this function!"@ && *final(state)
            == *old(state),
        info.funds@.len() == 0 ==> {
            let sender = info.sender@;
            let owner = old(state).owner();
            let cap = old(state).max_parallel_claims() as int;
            match msg {
                ExecuteMsg::UpdateConfig { config } => {
                    &&& (r is Ok <==> sender == owner)
                    &&& (r is Err ==> r->Err_0@ is Unauthorized && *final(state) == *old(state))
                    &&& (r is Ok ==> update_config_post(old(state), final(state), &config, r->Ok_0@))
                },
                ExecuteMsg::ClaimAndStake { users_protocols } => {
                    let upsv = ups_view(users_protocols@);
                    &&& (sender != owner ==> r is Err && r->Err_0@ is Unauthorized && *final(state)
                        == *old(state))
                    &&& (sender == owner && total_pairs(upsv) > cap ==> r is Err && r->Err_0@
                        == (ContractErrorV::TooManyMessages {
                        max_allowed: old(state).max_parallel_claims() as usize,
                    }) && *final(state) == *old(state))
                    &&& (sender == owner && total_pairs(upsv) <= cap ==> r is Ok && cs_post(
                        old(state),
                        final(state),
                        bank@,
                        upsv,
                        r->Ok_0@,
                    ))
                },
                ExecuteMsg::ClaimOnly { protocol, users_contracts } => {
                    &&& (sender != owner ==> r is Err && r->Err_0@ is Unauthorized && *final(state)
                        == *old(state))
                    &&& (sender == owner && users_contracts@.len() > cap ==> r is Err && r->Err_0@
                        == (ContractErrorV::TooManyMessages {
                        max_allowed: old(state).max_parallel_claims() as usize,
                    }) && *final(state) == *old(state))
                    &&& (sender == owner && users_contracts@.len() <= cap
                        && !old(state).registry().dom().contains(protocol@) ==> r is Err
                        && r->Err_0@ == (ContractErrorV::InvalidProtocol { protocol: protocol@ })
                        && *final(state) == *old(state))
                    &&& (sender == owner && users_contracts@.len() <= cap
                        && old(state).registry().dom().contains(protocol@)
                        && !(old(state).registry()[protocol@].strategy is ClaimOnlyFIN)
                        ==> r is Err && r->Err_0@ is InvalidStrategy
                        && *final(state) == *old(state))
                    &&& (sender == owner && users_contracts@.len() <= cap
                        && old(state).registry().dom().contains(protocol@)
                        && old(state).registry()[protocol@].strategy is ClaimOnlyFIN
                        ==> r is Ok && co_post(
                        old(state),
                        final(state),
                        protocol@,
                        pairs_view(users_contracts@),
                        r->Ok_0@,
                    ))
                },
                ExecuteMsg::Subscribe { protocols } => {
                    let ps = strings_view(protocols@);
                    let all_known = forall|i: int|
                        0 <= i < ps.len() ==> old(state).registry().dom().contains(#[trigger] ps[i]);
                    &&& (!all_known ==> r is Err && r->Err_0@ is InvalidProtocol
                        && Some(r->Err_0@->InvalidProtocol_protocol) == first_unknown(
                        old(state).registry(),
                        ps,
                    ) && *final(state) == *old(state))
                    &&& (all_known ==> r is Ok && subscribe_post(
                        old(state),
                        final(state),
                        sender,
                        ps,
                        r->Ok_0@,
                    ))
                },
                ExecuteMsg::Unsubscribe { protocols } => {
                    let ps = strings_view(protocols@);
                    let all_known = forall|i: int|
                        0 <= i < ps.len() ==> old(state).registry().dom().contains(#[trigger] ps[i]);
                    &&& (!all_known ==> r is Err && r->Err_0@ is InvalidProtocol
                        && Some(r->Err_0@->InvalidProtocol_protocol) == first_unknown(
                        old(state).registry(),
                        ps,
                    ) && *final(state) == *old(state))
                    &&& (all_known ==> r is Ok && unsubscribe_post(
                        old(state),
                        final(state),
                        sender,
                        ps,
                        r->Ok_0@,
                    ))
                },
            }
        },
{
    if info.funds.len() > 0 {
        return Err(
            ContractError::GenericError {
                msg: String::from_str("Don't send funds to this function!"),
            },
        );
    }

    match msg {
        ExecuteMsg::UpdateConfig { config } => update_config(state, &info.sender, config),
        ExecuteMsg::ClaimAndStake { users_protocols } => {
            let owner_ok = match &state.config {
                Some(c) => crate::text::str_eq(&c.owner, &info.sender),
                None => false,
            };
            if !owner_ok {
                return Err(ContractError::Unauthorized);
            }
            let cap: usize = match &state.config {
                Some(c) => c.max_parallel_claims as usize,
                None => 0,
            };
            let ghost upsv = ups_view(users_protocols@);
            // Count the batch's pairs, aborting as soon as the cap is passed.
            let nu = users_protocols.len();
            let mut total: usize = 0;
            let mut iu: usize = 0;
            proof {
                assert(upsv.skip(0) =~= upsv);
            }
            while iu < nu
                invariant
                    iu <= nu,
                    nu == users_protocols@.len(),
                    upsv == ups_view(users_protocols@),
                    cap <= 255,
                    total <= cap,
                    total_pairs(upsv) == total + total_pairs(upsv.skip(iu as int)),
                    *state == *old(state),
                    old(state).wf(),
                    info.funds@.len() == 0,
                    info.sender@ == old(state).owner(),
                    cap == old(state).max_parallel_claims() as int,
                    msg == (ExecuteMsg::ClaimAndStake { users_protocols: users_protocols }),
                decreases nu - iu,
            {
                let ghost rest = upsv.skip(iu as int);
                proof {
                    assert(rest[0] == upsv[iu as int]);
                    assert(rest.skip(1) =~= upsv.skip(iu as int + 1));
                    assert(upsv[iu as int].1 == strings_view(users_protocols@[iu as int].1@));
                    crate::autoclaimer::batch::lemma_total_pairs_nonneg(upsv.skip(iu as int + 1));
                }
                let here = users_protocols[iu].1.len();
                if here > cap - total {
                    return Err(ContractError::TooManyMessages { max_allowed: cap });
                }
                total = total + here;
                iu = iu + 1;
            }
            proof {
                assert(upsv.skip(nu as int) =~= Seq::<(Seq<char>, Seq<Seq<char>>)>::empty());
            }
            execute_claim_and_stake(state, bank, users_protocols)
        },
        ExecuteMsg::ClaimOnly { protocol, users_contracts } => {
            let owner_ok = match &state.config {
                Some(c) => crate::text::str_eq(&c.owner, &info.sender),
                None => false,
            };
            if !owner_ok {
                return Err(ContractError::Unauthorized);
            }
            let cap: usize = match &state.config {
                Some(c) => c.max_parallel_claims as usize,
                None => 0,
            };
            if users_contracts.len() > cap {
                return Err(ContractError::TooManyMessages { max_allowed: cap });
            }
            execute_claim_only(state, &info.sender, protocol, users_contracts)
        },
        ExecuteMsg::Subscribe { protocols } => {
            match validate_protocols(state, &protocols) {
                Ok(()) => subscribe(state, info.sender, protocols),
                Err(e) => Err(e),
            }
        },
        ExecuteMsg::Unsubscribe { protocols } => {
            match validate_protocols(state, &protocols) {
                Ok(()) => unsubscribe(state, info.sender, protocols),
                Err(e) => Err(e),
            }
        },
    }
}

} // verus!

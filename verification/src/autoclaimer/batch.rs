//! The batch dispatcher: given an owner-submitted list of (user, protocols)
//! pairs, it filters by subscription, issues one claim operation per
//! authorized pair, and records the pending context its reply will be
//! interpreted in.
//!
//! Dispatch handles are drawn from disjoint numeric ranges per stage, so a
//! reply's handle alone tells which stage settled.

use vstd::prelude::*;

verus! {

use crate::autoclaimer::error::ContractError;
use crate::autoclaimer::msg::{
    co_markets, cs_claim_contract, cs_provider, cs_reward_denom, ProtocolConfigV, ProtocolStrategy,
};
use crate::autoclaimer::state::State;
use crate::common::{authz_execute, build_claim_msg, build_FIN_claim_msg, claim_command, ContractCommand};
use crate::host::{
    Attribute, AttributeV, Bank, BankEntryV, Event, EventV, ReplyOn, Response, ResponseV,
    SubMsg, SubMsgV, spec_balance,
};
use crate::text::{
    clone_strings, contains_string, dec_str, join_strings, joined, strings_view,
};
use vstd::string::StringExecFns;

/// First handle of the claim stage of a claim-and-stake pipeline.
pub const CLAIM_AND_STAKE_CLAIM_BASE_ID: u64 = 1000;

/// First handle of the stake stage.
pub const CLAIM_AND_STAKE_STAKE_BASE_ID: u64 = 2000;

/// First handle of the fee-send stage.
pub const CLAIM_AND_STAKE_SEND_BASE_ID: u64 = 3000;

/// First handle of the claim-only stage.
pub const CLAIM_ONLY_CLAIM_BASE_ID: u64 = 4000;

/// The claim identifier handed to providers that ask for one.
pub const PROVIDER_CLAIM_ID: u64 = 2;

/// The event type under which this contract reports.
pub open spec fn contract_event_ty() -> Seq<char> {
    "autorujira.autoclaimer"@
}

// ---------------------------------------------------------------------------
// The dispatch plan.
// ---------------------------------------------------------------------------

/// What a batch dispatch produces: the operations to dispatch, the pending
/// context recorded for their replies, and the pairs that were ignored.
#[verifier::ext_equal]
pub struct CsPlan {
    pub msgs: Seq<SubMsgV>,
    pub pending: Map<u64, (Seq<char>, Seq<char>, u128)>,
    pub ignored: Seq<(Seq<char>, Seq<char>)>,
}

pub open spec fn empty_plan() -> CsPlan {
    CsPlan { msgs: Seq::empty(), pending: Map::empty(), ignored: Seq::empty() }
}

/// Two plan parts in sequence; pending context recorded later wins a handle.
pub open spec fn combine(a: CsPlan, b: CsPlan) -> CsPlan {
    CsPlan {
        msgs: a.msgs + b.msgs,
        pending: a.pending.union_prefer_right(b.pending),
        ignored: a.ignored + b.ignored,
    }
}

proof fn lemma_combine_empty_l(a: CsPlan)
    ensures
        combine(empty_plan(), a) == a,
{
    assert(empty_plan().msgs + a.msgs =~= a.msgs);
    assert(empty_plan().pending.union_prefer_right(a.pending) =~= a.pending);
    assert(empty_plan().ignored + a.ignored =~= a.ignored);
    assert(combine(empty_plan(), a) =~= a);
}

proof fn lemma_combine_empty_r(a: CsPlan)
    ensures
        combine(a, empty_plan()) == a,
{
    assert(a.msgs + empty_plan().msgs =~= a.msgs);
    assert(a.pending.union_prefer_right(empty_plan().pending) =~= a.pending);
    assert(a.ignored + empty_plan().ignored =~= a.ignored);
    assert(combine(a, empty_plan()) =~= a);
}

proof fn lemma_combine_assoc(a: CsPlan, b: CsPlan, c: CsPlan)
    ensures
        combine(combine(a, b), c) == combine(a, combine(b, c)),
{
    assert((a.msgs + b.msgs) + c.msgs =~= a.msgs + (b.msgs + c.msgs));
    assert(a.pending.union_prefer_right(b.pending).union_prefer_right(c.pending)
        =~= a.pending.union_prefer_right(b.pending.union_prefer_right(c.pending)));
    assert((a.ignored + b.ignored) + c.ignored =~= a.ignored + (b.ignored + c.ignored));
    assert(combine(combine(a, b), c) =~= combine(a, combine(b, c)));
}

/// Whether a claim is dispatched for this pair: the user must be subscribed
/// to the protocol and the protocol's strategy must be claim-capable here.
pub open spec fn claim_pair_active(
    subs: Map<Seq<char>, Seq<Seq<char>>>,
    reg: Map<Seq<char>, ProtocolConfigV>,
    u: Seq<char>,
    p: Seq<char>,
) -> bool {
    &&& subs.dom().contains(u)
    &&& subs[u].contains(p)
    &&& reg.dom().contains(p)
    &&& reg[p].strategy is ClaimAndStakeDaoDaoCwRewards
}

/// The claim operation for one active pair, under handle `base + k`.
pub open spec fn pair_msg(reg: Map<Seq<char>, ProtocolConfigV>, u: Seq<char>, p: Seq<char>, k: int) -> SubMsgV {
    let st = reg[p].strategy;
    SubMsgV {
        id: (CLAIM_AND_STAKE_CLAIM_BASE_ID + k) as u64,
        msg: authz_execute(
            u,
            cs_claim_contract(st),
            claim_command(cs_provider(st), PROVIDER_CLAIM_ID),
            Seq::empty(),
        ),
        reply_on: ReplyOn::Always,
    }
}

/// The plan for one (user, protocol) pair, `k` claim operations having been
/// planned already: an active pair dispatches one claim and records the
/// user's current balance of the reward denomination; any other pair is
/// ignored.
pub open spec fn pair_plan(
    subs: Map<Seq<char>, Seq<Seq<char>>>,
    reg: Map<Seq<char>, ProtocolConfigV>,
    bank: Seq<BankEntryV>,
    u: Seq<char>,
    p: Seq<char>,
    k: int,
) -> CsPlan {
    if claim_pair_active(subs, reg, u, p) {
        let id = (CLAIM_AND_STAKE_CLAIM_BASE_ID + k) as u64;
        CsPlan {
            msgs: seq![pair_msg(reg, u, p, k)],
            pending: Map::empty().insert(
                id,
                (u, p, spec_balance(bank, u, cs_reward_denom(reg[p].strategy))),
            ),
            ignored: Seq::empty(),
        }
    } else {
        CsPlan { msgs: Seq::empty(), pending: Map::empty(), ignored: seq![(u, p)] }
    }
}

/// The plan for one user's protocol list, in order.
pub open spec fn cs_plan_user(
    subs: Map<Seq<char>, Seq<Seq<char>>>,
    reg: Map<Seq<char>, ProtocolConfigV>,
    bank: Seq<BankEntryV>,
    u: Seq<char>,
    ps: Seq<Seq<char>>,
    k: int,
) -> CsPlan
    decreases ps.len(),
{
    if ps.len() == 0 {
        empty_plan()
    } else {
        let head = pair_plan(subs, reg, bank, u, ps[0], k);
        combine(head, cs_plan_user(subs, reg, bank, u, ps.skip(1), k + head.msgs.len()))
    }
}

/// The plan for the whole batch, users in input order.
pub open spec fn cs_plan(
    subs: Map<Seq<char>, Seq<Seq<char>>>,
    reg: Map<Seq<char>, ProtocolConfigV>,
    bank: Seq<BankEntryV>,
    ups: Seq<(Seq<char>, Seq<Seq<char>>)>,
    k: int,
) -> CsPlan
    decreases ups.len(),
{
    if ups.len() == 0 {
        empty_plan()
    } else {
        let head = cs_plan_user(subs, reg, bank, ups[0].0, ups[0].1, k);
        combine(head, cs_plan(subs, reg, bank, ups.skip(1), k + head.msgs.len()))
    }
}

/// The batch input at the level of views.
pub open spec fn ups_view(v: Seq<(String, Vec<String>)>) -> Seq<(Seq<char>, Seq<Seq<char>>)> {
    v.map_values(|e: (String, Vec<String>)| (e.0@, strings_view(e.1@)))
}

/// How many (user, protocol) pairs a batch holds in total.
pub open spec fn total_pairs(ups: Seq<(Seq<char>, Seq<Seq<char>>)>) -> int
    decreases ups.len(),
{
    if ups.len() == 0 {
        0
    } else {
        ups[0].1.len() + total_pairs(ups.skip(1))
    }
}

/// A batch never holds negatively many pairs.
pub proof fn lemma_total_pairs_nonneg(ups: Seq<(Seq<char>, Seq<Seq<char>>)>)
    ensures
        total_pairs(ups) >= 0,
    decreases ups.len(),
{
    if ups.len() > 0 {
        lemma_total_pairs_nonneg(ups.skip(1));
    }
}

// ---------------------------------------------------------------------------
// Laws about the plan.
// ---------------------------------------------------------------------------

/// Every recorded pending context belongs to a pair whose user is
/// subscribed to its protocol.
pub proof fn lemma_plan_pending_subscribed(
    subs: Map<Seq<char>, Seq<Seq<char>>>,
    reg: Map<Seq<char>, ProtocolConfigV>,
    bank: Seq<BankEntryV>,
    ups: Seq<(Seq<char>, Seq<Seq<char>>)>,
    k: int,
)
    ensures
        forall|h: u64|
            cs_plan(subs, reg, bank, ups, k).pending.dom().contains(h) ==> {
                let e = #[trigger] cs_plan(subs, reg, bank, ups, k).pending[h];
                subs.dom().contains(e.0) && subs[e.0].contains(e.1)
            },
    decreases ups.len(),
{
    if ups.len() > 0 {
        let head = cs_plan_user(subs, reg, bank, ups[0].0, ups[0].1, k);
        let rest = cs_plan(subs, reg, bank, ups.skip(1), k + head.msgs.len());
        let plan = cs_plan(subs, reg, bank, ups, k);
        lemma_plan_user_pending_subscribed(subs, reg, bank, ups[0].0, ups[0].1, k);
        lemma_plan_pending_subscribed(subs, reg, bank, ups.skip(1), k + head.msgs.len());
        assert forall|h: u64| plan.pending.dom().contains(h) implies {
            let e = #[trigger] plan.pending[h];
            subs.dom().contains(e.0) && subs[e.0].contains(e.1)
        } by {
            if rest.pending.dom().contains(h) {
                assert(plan.pending[h] == rest.pending[h]);
            } else {
                assert(plan.pending[h] == head.pending[h]);
            }
        }
    }
}

proof fn lemma_plan_user_pending_subscribed(
    subs: Map<Seq<char>, Seq<Seq<char>>>,
    reg: Map<Seq<char>, ProtocolConfigV>,
    bank: Seq<BankEntryV>,
    u: Seq<char>,
    ps: Seq<Seq<char>>,
    k: int,
)
    ensures
        forall|h: u64|
            cs_plan_user(subs, reg, bank, u, ps, k).pending.dom().contains(h) ==> {
                let e = #[trigger] cs_plan_user(subs, reg, bank, u, ps, k).pending[h];
                subs.dom().contains(e.0) && subs[e.0].contains(e.1)
            },
    decreases ps.len(),
{
    if ps.len() > 0 {
        let head = pair_plan(subs, reg, bank, u, ps[0], k);
        let rest = cs_plan_user(subs, reg, bank, u, ps.skip(1), k + head.msgs.len());
        let plan = cs_plan_user(subs, reg, bank, u, ps, k);
        lemma_plan_user_pending_subscribed(subs, reg, bank, u, ps.skip(1), k + head.msgs.len());
        assert forall|h: u64| plan.pending.dom().contains(h) implies {
            let e = #[trigger] plan.pending[h];
            subs.dom().contains(e.0) && subs[e.0].contains(e.1)
        } by {
            if rest.pending.dom().contains(h) {
                assert(plan.pending[h] == rest.pending[h]);
            } else {
                assert(head.pending.dom().contains(h));
                assert(claim_pair_active(subs, reg, u, ps[0]));
                assert(plan.pending[h] == head.pending[h]);
                assert(head.pending[h] == (u, ps[0], spec_balance(bank, u, cs_reward_denom(reg[ps[0]].strategy))));
            }
        }
    }
}

/// A pair whose user is not subscribed to its protocol is ignored, and no
/// claim is dispatched for it: the plan records no pending context naming
/// the pair, so no settlement will ever act for it.
pub proof fn lemma_unsubscribed_pair_ignored(
    subs: Map<Seq<char>, Seq<Seq<char>>>,
    reg: Map<Seq<char>, ProtocolConfigV>,
    bank: Seq<BankEntryV>,
    ups: Seq<(Seq<char>, Seq<Seq<char>>)>,
    k: int,
    iu: int,
    j: int,
)
    requires
        0 <= iu < ups.len(),
        0 <= j < ups[iu].1.len(),
        !(subs.dom().contains(ups[iu].0) && subs[ups[iu].0].contains(ups[iu].1[j])),
    ensures
        cs_plan(subs, reg, bank, ups, k).ignored.contains((ups[iu].0, ups[iu].1[j])),
        forall|h: u64|
            cs_plan(subs, reg, bank, ups, k).pending.dom().contains(h) ==> !(
            (#[trigger] cs_plan(subs, reg, bank, ups, k).pending[h]).0 == ups[iu].0
                && cs_plan(subs, reg, bank, ups, k).pending[h].1 == ups[iu].1[j]),
    decreases ups.len(),
{
    lemma_plan_pending_subscribed(subs, reg, bank, ups, k);
    let plan = cs_plan(subs, reg, bank, ups, k);
    let head = cs_plan_user(subs, reg, bank, ups[0].0, ups[0].1, k);
    if iu == 0 {
        lemma_unsubscribed_in_user_ignored(subs, reg, bank, ups[0].0, ups[0].1, k, j);
        let hi = head.ignored;
        let w = choose|w: int| 0 <= w < hi.len() && hi[w] == (ups[0].0, ups[0].1[j]);
        assert(plan.ignored[w] == (ups[0].0, ups[0].1[j]));
    } else {
        lemma_unsubscribed_pair_ignored(
            subs,
            reg,
            bank,
            ups.skip(1),
            k + head.msgs.len(),
            iu - 1,
            j,
        );
        let rest = cs_plan(subs, reg, bank, ups.skip(1), k + head.msgs.len());
        assert(ups.skip(1)[iu - 1] == ups[iu]);
        let w = choose|w: int|
            0 <= w < rest.ignored.len() && rest.ignored[w] == (ups[iu].0, ups[iu].1[j]);
        assert(plan.ignored[head.ignored.len() + w] == (ups[iu].0, ups[iu].1[j]));
    }
}

proof fn lemma_unsubscribed_in_user_ignored(
    subs: Map<Seq<char>, Seq<Seq<char>>>,
    reg: Map<Seq<char>, ProtocolConfigV>,
    bank: Seq<BankEntryV>,
    u: Seq<char>,
    ps: Seq<Seq<char>>,
    k: int,
    j: int,
)
    requires
        0 <= j < ps.len(),
        !(subs.dom().contains(u) && subs[u].contains(ps[j])),
    ensures
        cs_plan_user(subs, reg, bank, u, ps, k).ignored.contains((u, ps[j])),
    decreases ps.len(),
{
    let head = pair_plan(subs, reg, bank, u, ps[0], k);
    let plan = cs_plan_user(subs, reg, bank, u, ps, k);
    if j == 0 {
        assert(!claim_pair_active(subs, reg, u, ps[0]));
        assert(head.ignored[0] == (u, ps[0]));
        assert(plan.ignored[0] == (u, ps[0]));
    } else {
        lemma_unsubscribed_in_user_ignored(subs, reg, bank, u, ps.skip(1), k + head.msgs.len(), j - 1);
        let rest = cs_plan_user(subs, reg, bank, u, ps.skip(1), k + head.msgs.len());
        assert(ps.skip(1)[j - 1] == ps[j]);
        let w = choose|w: int| 0 <= w < rest.ignored.len() && rest.ignored[w] == (u, ps[j]);
        assert(plan.ignored[head.ignored.len() + w] == (u, ps[j]));
    }
}

// ---------------------------------------------------------------------------
// The dispatcher.
// ---------------------------------------------------------------------------

/// The ignored list rendered for the response event: "user:protocol" items
/// joined with commas.
pub open spec fn rendered_pairs(l: Seq<(Seq<char>, Seq<char>)>) -> Seq<char> {
    joined(l.map_values(|e: (Seq<char>, Seq<char>)| e.0 + ":"@ + e.1))
}

/// The summary event of a dispatch: the action, how many pairs were
/// ignored, and which.
pub open spec fn dispatch_event(action: Seq<char>, list_key: Seq<char>, ignored: Seq<(Seq<char>, Seq<char>)>) -> EventV {
    EventV {
        ty: contract_event_ty(),
        attributes: seq![
            AttributeV { key: "action"@, value: action },
            AttributeV { key: "ignored_count"@, value: dec_str(ignored.len() as int) },
            AttributeV { key: list_key, value: rendered_pairs(ignored) },
        ],
    }
}

/// What a batch dispatch did: the planned claim operations went out, their
/// pending context was recorded (a reused handle is overwritten), ignored
/// pairs were only counted and reported, and nothing else changed.
pub open spec fn cs_post(
    pre: &State,
    post: &State,
    bank: Seq<BankEntryV>,
    upsv: Seq<(Seq<char>, Seq<Seq<char>>)>,
    resp: ResponseV,
) -> bool {
    let plan = cs_plan(pre.subs(), pre.registry(), bank, upsv, 0);
    &&& resp.messages == plan.msgs
    &&& post.pending_cs() == pre.pending_cs().union_prefer_right(plan.pending)
    &&& post.subs() == pre.subs()
    &&& post.registry() == pre.registry()
    &&& post.registry_order() == pre.registry_order()
    &&& post.exec_data() == pre.exec_data()
    &&& post.pending_co() == pre.pending_co()
    &&& post.config == pre.config
    &&& resp.attributes == Seq::<AttributeV>::empty()
    &&& resp.events == seq![
        dispatch_event("execute_claim_and_stake"@, "ignored_pairs"@, plan.ignored),
    ]
}

/// The views of the built operation list.
pub open spec fn smv(v: Seq<SubMsg>) -> Seq<SubMsgV> {
    v.map_values(|m: SubMsg| m@)
}

/// The views of the built ignored list.
pub open spec fn prv(v: Seq<(String, String)>) -> Seq<(Seq<char>, Seq<char>)> {
    v.map_values(|e: (String, String)| (e.0@, e.1@))
}

/// Renders pairs as "first:second" strings.
fn render_pairs(pairs: &Vec<(String, String)>) -> (r: String)
    ensures
        r@ == rendered_pairs(prv(pairs@)),
{
    let n = pairs.len();
    let mut items: Vec<String> = Vec::new();
    let mut i: usize = 0;
    while i < n
        invariant
            i <= n,
            n == pairs@.len(),
            strings_view(items@) =~= prv(pairs@).map_values(
                |e: (Seq<char>, Seq<char>)| e.0 + ":"@ + e.1,
            ).take(i as int),
        decreases n - i,
    {
        let mut s = pairs[i].0.clone();
        s.append(":");
        s.append(pairs[i].1.as_str());
        let ghost before = strings_view(items@);
        items.push(s);
        proof {
            assert(strings_view(items@) =~= before.push(
                prv(pairs@).map_values(|e: (Seq<char>, Seq<char>)| e.0 + ":"@ + e.1)[i as int],
            ));
            assert(strings_view(items@) =~= prv(pairs@).map_values(
                |e: (Seq<char>, Seq<char>)| e.0 + ":"@ + e.1,
            ).take(i as int + 1));
        }
        i = i + 1;
    }
    proof {
        assert(prv(pairs@).map_values(|e: (Seq<char>, Seq<char>)| e.0 + ":"@ + e.1).take(n as int)
            =~= prv(pairs@).map_values(|e: (Seq<char>, Seq<char>)| e.0 + ":"@ + e.1));
    }
    join_strings(&items)
}

/// Builds the summary event of a dispatch.
fn make_dispatch_event(action: &str, list_key: &str, ignored: &Vec<(String, String)>) -> (r: Event)
    ensures
        r@ == dispatch_event(action@, list_key@, prv(ignored@)),
{
    let rendered = render_pairs(ignored);
    let mut attributes: Vec<Attribute> = Vec::new();
    attributes.push(Attribute::new("action", String::from_str(action)));
    attributes.push(Attribute::new_number("ignored_count", ignored.len() as u128));
    attributes.push(Attribute::new(list_key, rendered));
    let r = Event { ty: String::from_str("autorujira.autoclaimer"), attributes };
    proof {
        assert(r@.attributes =~= dispatch_event(action@, list_key@, prv(ignored@)).attributes);
        assert(r@ =~= dispatch_event(action@, list_key@, prv(ignored@)));
    }
    r
}

/// Dispatches one claim per subscribed, claim-capable (user, protocol) pair
/// of the batch, in input order: the pair's claim handle is the claim base
/// plus the number of claims planned before it, the user's current balance
/// of the protocol's reward denomination is recorded under that handle, and
/// every other pair is ignored and only reported. The whole call succeeds
/// regardless of how many pairs were ignored.
pub fn execute_claim_and_stake(
    state: &mut State,
    bank: &Bank,
    users_protocols: Vec<(String, Vec<String>)>,
) -> (r: Result<Response, ContractError>)
    requires
        old(state).wf(),
        total_pairs(ups_view(users_protocols@)) <= 1000,
    ensures
        final(state).wf(),
        r is Ok,
        cs_post(old(state), final(state), bank@, ups_view(users_protocols@), r->Ok_0@),
{
    let ghost subs0 = old(state).subs();
    let ghost reg0 = old(state).registry();
    let ghost bankv = bank@;
    let ghost upsv = ups_view(users_protocols@);
    let ghost full = cs_plan(subs0, reg0, bankv, upsv, 0);

    let mut messages: Vec<SubMsg> = Vec::new();
    let mut ignored_pairs: Vec<(String, String)> = Vec::new();
    let ghost mut added: Map<u64, (Seq<char>, Seq<char>, u128)> = Map::empty();

    let nu = users_protocols.len();
    let mut iu: usize = 0;
    proof {
        assert(upsv.skip(0) =~= upsv);
        assert(smv(messages@) =~= Seq::<SubMsgV>::empty());
        assert(prv(ignored_pairs@) =~= Seq::<(Seq<char>, Seq<char>)>::empty());
        lemma_combine_empty_l(cs_plan(subs0, reg0, bankv, upsv, 0));
        assert(state.pending_cs() =~= old(state).pending_cs().union_prefer_right(added));
    }
    while iu < nu
        invariant
            iu <= nu,
            nu == users_protocols@.len(),
            subs0 == old(state).subs(),
            reg0 == old(state).registry(),
            bankv == bank@,
            upsv == ups_view(users_protocols@),
            full == cs_plan(subs0, reg0, bankv, upsv, 0),
            state.wf(),
            state.protocol_config == old(state).protocol_config,
            state.subscriptions == old(state).subscriptions,
            state.user_execution_data == old(state).user_execution_data,
            state.pending_claim_only_data == old(state).pending_claim_only_data,
            state.config == old(state).config,
            state.pending_cs() == old(state).pending_cs().union_prefer_right(added),
            full == combine(
                CsPlan { msgs: smv(messages@), pending: added, ignored: prv(ignored_pairs@) },
                cs_plan(subs0, reg0, bankv, upsv.skip(iu as int), smv(messages@).len() as int),
            ),
            messages@.len() + total_pairs(upsv.skip(iu as int)) <= 1000,
        decreases nu - iu,
    {
        let user: String = users_protocols[iu].0.clone();
        let ghost u = user@;
        let ghost psv = upsv[iu as int].1;
        proof {
            assert(upsv[iu as int] == (users_protocols@[iu as int].0@, strings_view(
                users_protocols@[iu as int].1@,
            )));
            assert(upsv.skip(iu as int)[0] == upsv[iu as int]);
            assert(upsv.skip(iu as int).skip(1) =~= upsv.skip(iu as int + 1));
        }
        let user_subscriptions: Vec<String> = match state.subscriptions.get(user.as_str()) {
            Some(l) => clone_strings(l),
            None => Vec::new(),
        };
        proof {
            if subs0.dom().contains(u) {
                assert(strings_view(user_subscriptions@) == subs0[u]);
            } else {
                assert(strings_view(user_subscriptions@) =~= Seq::<Seq<char>>::empty());
            }
        }

        let np = users_protocols[iu].1.len();
        let mut j: usize = 0;
        proof {
            assert(psv.skip(0) =~= psv);
        }
        while j < np
            invariant
                j <= np,
                iu < nu,
                nu == users_protocols@.len(),
                np == users_protocols@[iu as int].1@.len(),
                u == users_protocols@[iu as int].0@,
                psv == strings_view(users_protocols@[iu as int].1@),
                u == user@,
                subs0 == old(state).subs(),
                reg0 == old(state).registry(),
                bankv == bank@,
                upsv == ups_view(users_protocols@),
                full == cs_plan(subs0, reg0, bankv, upsv, 0),
                strings_view(user_subscriptions@) == (if subs0.dom().contains(u) {
                    subs0[u]
                } else {
                    Seq::<Seq<char>>::empty()
                }),
                state.wf(),
                state.protocol_config == old(state).protocol_config,
                state.subscriptions == old(state).subscriptions,
                state.user_execution_data == old(state).user_execution_data,
                state.pending_claim_only_data == old(state).pending_claim_only_data,
                state.config == old(state).config,
                state.pending_cs() == old(state).pending_cs().union_prefer_right(added),
                full == combine(
                    CsPlan { msgs: smv(messages@), pending: added, ignored: prv(ignored_pairs@) },
                    combine(
                        cs_plan_user(
                            subs0,
                            reg0,
                            bankv,
                            u,
                            psv.skip(j as int),
                            smv(messages@).len() as int,
                        ),
                        cs_plan(
                            subs0,
                            reg0,
                            bankv,
                            upsv.skip(iu as int + 1),
                            smv(messages@).len() as int + cs_plan_user(
                                subs0,
                                reg0,
                                bankv,
                                u,
                                psv.skip(j as int),
                                smv(messages@).len() as int,
                            ).msgs.len() as int,
                        ),
                    ),
                ),
                messages@.len() + (np - j) + total_pairs(upsv.skip(iu as int + 1)) <= 1000,
            decreases np - j,
        {
            let protocol: String = users_protocols[iu].1[j].clone();
            let ghost p = protocol@;
            let ghost k = messages@.len() as int;
            let ghost done = CsPlan {
                msgs: smv(messages@),
                pending: added,
                ignored: prv(ignored_pairs@),
            };
            let ghost user_rest = cs_plan_user(subs0, reg0, bankv, u, psv.skip(j as int), k);
            let ghost head = pair_plan(subs0, reg0, bankv, u, p, k);
            let ghost user_next = cs_plan_user(
                subs0,
                reg0,
                bankv,
                u,
                psv.skip(j as int + 1),
                k + head.msgs.len(),
            );
            proof {
                assert(psv.skip(j as int)[0] == psv[j as int]);
                assert(psv[j as int] == p);
                assert(psv.skip(j as int).skip(1) =~= psv.skip(j as int + 1));
                assert(user_rest == combine(head, user_next));
            }
            let ghost outer_rest = cs_plan(
                subs0,
                reg0,
                bankv,
                upsv.skip(iu as int + 1),
                k + user_rest.msgs.len(),
            );

            let is_subscribed = contains_string(&user_subscriptions, protocol.as_str());
            let mut dispatched = false;
            if is_subscribed {
                assert(subs0.dom().contains(u) && subs0[u].contains(p));
                let config = match state.protocol_config.get(protocol.as_str()) {
                    Some(c) => c,
                    None => {
                        proof {
                            assert(state.subs() =~= subs0);
                            assert(state.subs().dom().contains(u) && state.subs()[u].contains(p));
                            let idx = choose|idx: int|
                                0 <= idx < state.subs()[u].len() && state.subs()[u][idx] == p;
                            assert(state.registry().dom().contains(state.subs()[u][idx]));
                            assert(state.protocol_config.as_map().dom().contains(p));
                            assert(false);
                        }
                        return Err(ContractError::InvalidProtocol { protocol });
                    },
                };
                assert(config@ == reg0[p]);
                match &config.strategy {
                    ProtocolStrategy::ClaimAndStakeDaoDaoCwRewards {
                        provider,
                        claim_contract_address,
                        stake_contract_address: _,
                        reward_denom,
                    } => {
                        assert(claim_pair_active(subs0, reg0, u, p));
                        let balance_before = bank.balance_of(
                            user.as_str(),
                            reward_denom.as_str(),
                        );
                        proof {
                            lemma_total_pairs_nonneg(upsv.skip(iu as int + 1));
                        }
                        let id: u64 = CLAIM_AND_STAKE_CLAIM_BASE_ID + (messages.len() as u64);
                        let claim_msg = build_claim_msg(
                            user.clone(),
                            *provider,
                            claim_contract_address.clone(),
                            PROVIDER_CLAIM_ID,
                        );
                        let ghost pre_pending = *state;
                        state.pending_claim_and_stake_data.insert(
                            id,
                            (user.clone(), protocol.clone(), balance_before),
                        );
                        proof {
                            added = added.insert(id, (u, p, balance_before));
                            assert(state.pending_cs() =~= pre_pending.pending_cs().insert(
                                id,
                                (u, p, balance_before),
                            ));
                            assert(state.pending_cs() =~= old(state).pending_cs().union_prefer_right(
                                added,
                            ));
                            // The other table views are untouched.
                            assert(state.subs() =~= pre_pending.subs());
                            assert(state.registry() =~= pre_pending.registry());
                            assert(state.exec_data() =~= pre_pending.exec_data());
                            assert(state.pending_co() =~= pre_pending.pending_co());
                        }
                        let ghost pre_msgs = messages@;
                        messages.push(
                            SubMsg { id, msg: claim_msg, reply_on: ReplyOn::Always },
                        );
                        dispatched = true;
                        proof {
                            assert(smv(messages@) =~= smv(pre_msgs).push(messages@[k]@));
                            assert(cs_reward_denom(reg0[p].strategy) == reward_denom@);
                            assert(cs_claim_contract(reg0[p].strategy) == claim_contract_address@);
                            assert(cs_provider(reg0[p].strategy) == *provider);
                            assert(balance_before == spec_balance(bankv, u, cs_reward_denom(reg0[p].strategy)));
                            assert(messages@[k]@ == pair_msg(reg0, u, p, k));
                            assert(smv(messages@) =~= done.msgs + head.msgs);
                            assert(added =~= done.pending.union_prefer_right(head.pending));
                            assert(prv(ignored_pairs@) =~= done.ignored + head.ignored);
                        }
                    },
                    ProtocolStrategy::ClaimOnlyFIN { .. } => {
                        ignored_pairs.push((user.clone(), protocol));
                        proof {
                            assert(!claim_pair_active(subs0, reg0, u, p));
                            assert(prv(ignored_pairs@) =~= done.ignored + head.ignored);
                        }
                    },
                }
            } else {
                ignored_pairs.push((user.clone(), protocol));
                proof {
                    assert(!claim_pair_active(subs0, reg0, u, p));
                    assert(prv(ignored_pairs@) =~= done.ignored + head.ignored);
                }
            }
            proof {
                let done2 = CsPlan {
                    msgs: smv(messages@),
                    pending: added,
                    ignored: prv(ignored_pairs@),
                };
                assert(done2 =~= combine(done, head));
                lemma_combine_assoc(done, head, combine(user_next, outer_rest));
                lemma_combine_assoc(head, user_next, outer_rest);
                assert(full == combine(done2, combine(user_next, outer_rest)));
                assert(smv(messages@).len() == k + head.msgs.len());
            }
            j = j + 1;
        }
        proof {
            assert(psv.skip(np as int) =~= Seq::<Seq<char>>::empty());
            let done = CsPlan {
                msgs: smv(messages@),
                pending: added,
                ignored: prv(ignored_pairs@),
            };
            lemma_combine_empty_l(
                cs_plan(subs0, reg0, bankv, upsv.skip(iu as int + 1), smv(messages@).len() as int),
            );
            assert(total_pairs(upsv.skip(iu as int)) == psv.len() + total_pairs(
                upsv.skip(iu as int + 1),
            ));
        }
        iu = iu + 1;
    }
    proof {
        assert(upsv.skip(nu as int) =~= Seq::<(Seq<char>, Seq<Seq<char>>)>::empty());
        let done = CsPlan { msgs: smv(messages@), pending: added, ignored: prv(ignored_pairs@) };
        lemma_combine_empty_r(done);
        assert(full == done);
    }

    let event = make_dispatch_event("execute_claim_and_stake", "ignored_pairs", &ignored_pairs);
    let mut events: Vec<Event> = Vec::new();
    events.push(event);
    let resp = Response { messages, attributes: Vec::new(), events };
    proof {
        assert(resp@.attributes =~= Seq::<AttributeV>::empty());
        assert(resp@.events =~= seq![
            dispatch_event("execute_claim_and_stake"@, "ignored_pairs"@, full.ignored),
        ]);
    }
    Ok(resp)
}

// ---------------------------------------------------------------------------
// Claim-only dispatch.
// ---------------------------------------------------------------------------

/// What a claim-only dispatch produces.
#[verifier::ext_equal]
pub struct CoPlan {
    pub msgs: Seq<SubMsgV>,
    pub pending: Map<u64, (Seq<char>, Seq<char>, Seq<char>)>,
    pub ignored: Seq<(Seq<char>, Seq<char>)>,
}

pub open spec fn empty_co_plan() -> CoPlan {
    CoPlan { msgs: Seq::empty(), pending: Map::empty(), ignored: Seq::empty() }
}

pub open spec fn combine_co(a: CoPlan, b: CoPlan) -> CoPlan {
    CoPlan {
        msgs: a.msgs + b.msgs,
        pending: a.pending.union_prefer_right(b.pending),
        ignored: a.ignored + b.ignored,
    }
}

proof fn lemma_combine_co_empty_l(a: CoPlan)
    ensures
        combine_co(empty_co_plan(), a) == a,
{
    assert(empty_co_plan().msgs + a.msgs =~= a.msgs);
    assert(empty_co_plan().pending.union_prefer_right(a.pending) =~= a.pending);
    assert(empty_co_plan().ignored + a.ignored =~= a.ignored);
    assert(combine_co(empty_co_plan(), a) =~= a);
}

proof fn lemma_combine_co_empty_r(a: CoPlan)
    ensures
        combine_co(a, empty_co_plan()) == a,
{
    assert(a.msgs + empty_co_plan().msgs =~= a.msgs);
    assert(a.pending.union_prefer_right(empty_co_plan().pending) =~= a.pending);
    assert(a.ignored + empty_co_plan().ignored =~= a.ignored);
    assert(combine_co(a, empty_co_plan()) =~= a);
}

proof fn lemma_combine_co_assoc(a: CoPlan, b: CoPlan, c: CoPlan)
    ensures
        combine_co(combine_co(a, b), c) == combine_co(a, combine_co(b, c)),
{
    assert((a.msgs + b.msgs) + c.msgs =~= a.msgs + (b.msgs + c.msgs));
    assert(a.pending.union_prefer_right(b.pending).union_prefer_right(c.pending)
        =~= a.pending.union_prefer_right(b.pending.union_prefer_right(c.pending)));
    assert((a.ignored + b.ignored) + c.ignored =~= a.ignored + (b.ignored + c.ignored));
    assert(combine_co(combine_co(a, b), c) =~= combine_co(a, combine_co(b, c)));
}

/// The plan for one (user, market) pair of a claim-only dispatch: a pair
/// whose market is on the protocol's whitelist withdraws the user's filled
/// orders under handle `base + k`; any other pair is ignored.
pub open spec fn co_pair_plan(
    markets: Seq<Seq<char>>,
    protocol: Seq<char>,
    u: Seq<char>,
    c: Seq<char>,
    k: int,
) -> CoPlan {
    if markets.contains(c) {
        let id = (CLAIM_ONLY_CLAIM_BASE_ID + k) as u64;
        CoPlan {
            msgs: seq![
                SubMsgV {
                    id: id,
                    msg: authz_execute(u, c, ContractCommand::WithdrawOrders, Seq::empty()),
                    reply_on: ReplyOn::Always,
                },
            ],
            pending: Map::empty().insert(id, (protocol, u, c)),
            ignored: Seq::empty(),
        }
    } else {
        CoPlan { msgs: Seq::empty(), pending: Map::empty(), ignored: seq![(u, c)] }
    }
}

/// The plan for a whole claim-only batch, pairs in input order.
pub open spec fn co_plan(
    markets: Seq<Seq<char>>,
    protocol: Seq<char>,
    pairs: Seq<(Seq<char>, Seq<char>)>,
    k: int,
) -> CoPlan
    decreases pairs.len(),
{
    if pairs.len() == 0 {
        empty_co_plan()
    } else {
        let head = co_pair_plan(markets, protocol, pairs[0].0, pairs[0].1, k);
        combine_co(head, co_plan(markets, protocol, pairs.skip(1), k + head.msgs.len()))
    }
}

/// A pair whose market is not whitelisted is ignored and nothing is
/// dispatched or recorded for it.
pub proof fn lemma_unsupported_market_ignored(
    markets: Seq<Seq<char>>,
    protocol: Seq<char>,
    pairs: Seq<(Seq<char>, Seq<char>)>,
    k: int,
    i: int,
)
    requires
        0 <= i < pairs.len(),
        !markets.contains(pairs[i].1),
    ensures
        co_plan(markets, protocol, pairs, k).ignored.contains(pairs[i]),
        forall|h: u64|
            co_plan(markets, protocol, pairs, k).pending.dom().contains(h) ==> (
            #[trigger] co_plan(markets, protocol, pairs, k).pending[h]).2 != pairs[i].1,
    decreases pairs.len(),
{
    let head = co_pair_plan(markets, protocol, pairs[0].0, pairs[0].1, k);
    let plan = co_plan(markets, protocol, pairs, k);
    if i == 0 {
        assert(head.ignored[0] == pairs[0]);
        assert(plan.ignored[0] == pairs[0]);
    } else {
        lemma_unsupported_market_ignored(markets, protocol, pairs.skip(1), k + head.msgs.len(), i - 1);
        let rest = co_plan(markets, protocol, pairs.skip(1), k + head.msgs.len());
        assert(pairs.skip(1)[i - 1] == pairs[i]);
        let w = choose|w: int| 0 <= w < rest.ignored.len() && rest.ignored[w] == pairs[i];
        assert(plan.ignored[head.ignored.len() + w] == pairs[i]);
    }
    assert forall|h: u64| plan.pending.dom().contains(h) implies (#[trigger] plan.pending[h]).2
        != pairs[i].1 by {
        if i > 0 {
            let rest = co_plan(markets, protocol, pairs.skip(1), k + head.msgs.len());
            if rest.pending.dom().contains(h) {
                assert(plan.pending[h] == rest.pending[h]);
            } else {
                assert(plan.pending[h] == head.pending[h]);
                assert(markets.contains(pairs[0].1));
            }
        } else {
            if co_plan(markets, protocol, pairs.skip(1), k + head.msgs.len()).pending.dom().contains(h) {
                lemma_co_plan_pending_whitelisted(markets, protocol, pairs.skip(1), k + head.msgs.len());
                assert(plan.pending[h] == co_plan(markets, protocol, pairs.skip(1), k + head.msgs.len()).pending[h]);
            } else {
                assert(plan.pending[h] == head.pending[h]);
            }
        }
    }
}

/// Every recorded claim-only context names a whitelisted market.
pub proof fn lemma_co_plan_pending_whitelisted(
    markets: Seq<Seq<char>>,
    protocol: Seq<char>,
    pairs: Seq<(Seq<char>, Seq<char>)>,
    k: int,
)
    ensures
        forall|h: u64|
            co_plan(markets, protocol, pairs, k).pending.dom().contains(h) ==> markets.contains(
                (#[trigger] co_plan(markets, protocol, pairs, k).pending[h]).2,
            ),
    decreases pairs.len(),
{
    if pairs.len() > 0 {
        let head = co_pair_plan(markets, protocol, pairs[0].0, pairs[0].1, k);
        let rest = co_plan(markets, protocol, pairs.skip(1), k + head.msgs.len());
        let plan = co_plan(markets, protocol, pairs, k);
        lemma_co_plan_pending_whitelisted(markets, protocol, pairs.skip(1), k + head.msgs.len());
        assert forall|h: u64| plan.pending.dom().contains(h) implies markets.contains(
            (#[trigger] plan.pending[h]).2,
        ) by {
            if rest.pending.dom().contains(h) {
                assert(plan.pending[h] == rest.pending[h]);
            } else {
                assert(plan.pending[h] == head.pending[h]);
            }
        }
    }
}

/// What a successful claim-only dispatch did.
pub open spec fn co_post(
    pre: &State,
    post: &State,
    protocol: Seq<char>,
    pairsv: Seq<(Seq<char>, Seq<char>)>,
    resp: ResponseV,
) -> bool {
    let markets = co_markets(pre.registry()[protocol].strategy);
    let plan = co_plan(markets, protocol, pairsv, 0);
    &&& resp.messages == plan.msgs
    &&& post.pending_co() == pre.pending_co().union_prefer_right(plan.pending)
    &&& post.subs() == pre.subs()
    &&& post.registry() == pre.registry()
    &&& post.registry_order() == pre.registry_order()
    &&& post.exec_data() == pre.exec_data()
    &&& post.pending_cs() == pre.pending_cs()
    &&& post.config == pre.config
    &&& resp.attributes == Seq::<AttributeV>::empty()
    &&& resp.events == seq![
        dispatch_event("execute_claim_only"@, "ignored_markets"@, plan.ignored),
    ]
}

/// The input pairs of a claim-only batch at the level of views.
pub open spec fn pairs_view(v: Seq<(String, String)>) -> Seq<(Seq<char>, Seq<char>)> {
    v.map_values(|e: (String, String)| (e.0@, e.1@))
}

/// Dispatches one withdraw-orders operation per (user, market) pair whose
/// market is on the claim-only protocol's whitelist, in input order; pairs
/// with any other market are ignored and only reported. Only the owner may
/// call this, the protocol must be registered, and its strategy must be the
/// claim-only one.
pub fn execute_claim_only(
    state: &mut State,
    sender: &String,
    protocol: String,
    users_contracts: Vec<(String, String)>,
) -> (r: Result<Response, ContractError>)
    requires
        old(state).wf(),
        users_contracts@.len() <= 1000,
    ensures
        final(state).wf(),
        sender@ != old(state).owner() ==> r is Err && r->Err_0@ is Unauthorized && *final(state)
            == *old(state),
        sender@ == old(state).owner() && !old(state).registry().dom().contains(protocol@) ==> r
            is Err && r->Err_0@ == (crate::autoclaimer::error::ContractErrorV::InvalidProtocol {
            protocol: protocol@,
        }) && *final(state) == *old(state),
        sender@ == old(state).owner() && old(state).registry().dom().contains(protocol@) && !(
        old(state).registry()[protocol@].strategy is ClaimOnlyFIN) ==> r is Err && r->Err_0@
            == (crate::autoclaimer::error::ContractErrorV::InvalidStrategy {
            strategy: crate::autoclaimer::msg::strategy_name(
                old(state).registry()[protocol@].strategy,
            ),
        }) && *final(state) == *old(state),
        sender@ == old(state).owner() && old(state).registry().dom().contains(protocol@) && old(state).registry()[protocol@].strategy is ClaimOnlyFIN ==> r is Ok && co_post(
            old(state),
            final(state),
            protocol@,
            pairs_view(users_contracts@),
            r->Ok_0@,
        ),
{
    let owner_ok = match &state.config {
        Some(c) => crate::text::str_eq(&c.owner, sender),
        None => false,
    };
    if !owner_ok {
        return Err(ContractError::Unauthorized);
    }

    let ghost reg0 = old(state).registry();
    let ghost protv = protocol@;
    let ghost pairsv = pairs_view(users_contracts@);

    let markets: Vec<String> = match state.protocol_config.get(protocol.as_str()) {
        Some(config) => {
            match &config.strategy {
                ProtocolStrategy::ClaimOnlyFIN { supported_markets } => {
                    clone_strings(supported_markets)
                },
                ProtocolStrategy::ClaimAndStakeDaoDaoCwRewards { .. } => {
                    let strategy_str = config.strategy.as_str();
                    return Err(
                        ContractError::InvalidStrategy {
                            strategy: String::from_str(strategy_str),
                        },
                    );
                },
            }
        },
        None => {
            return Err(ContractError::InvalidProtocol { protocol });
        },
    };
    let ghost marketsv = strings_view(markets@);
    proof {
        assert(marketsv == co_markets(reg0[protv].strategy));
    }
    let ghost full = co_plan(marketsv, protv, pairsv, 0);

    let mut messages: Vec<SubMsg> = Vec::new();
    let mut ignored_markets: Vec<(String, String)> = Vec::new();
    let ghost mut added: Map<u64, (Seq<char>, Seq<char>, Seq<char>)> = Map::empty();

    let n = users_contracts.len();
    let mut i: usize = 0;
    proof {
        assert(pairsv.skip(0) =~= pairsv);
        assert(smv(messages@) =~= Seq::<SubMsgV>::empty());
        assert(prv(ignored_markets@) =~= Seq::<(Seq<char>, Seq<char>)>::empty());
        lemma_combine_co_empty_l(co_plan(marketsv, protv, pairsv, 0));
        assert(state.pending_co() =~= old(state).pending_co().union_prefer_right(added));
    }
    while i < n
        invariant
            i <= n,
            n == users_contracts@.len(),
            n <= 1000,
            pairsv == pairs_view(users_contracts@),
            marketsv == strings_view(markets@),
            protv == protocol@,
            full == co_plan(marketsv, protv, pairsv, 0),
            state.wf(),
            state.protocol_config == old(state).protocol_config,
            state.subscriptions == old(state).subscriptions,
            state.user_execution_data == old(state).user_execution_data,
            state.pending_claim_and_stake_data == old(state).pending_claim_and_stake_data,
            state.config == old(state).config,
            state.pending_co() == old(state).pending_co().union_prefer_right(added),
            messages@.len() <= i,
            full == combine_co(
                CoPlan { msgs: smv(messages@), pending: added, ignored: prv(ignored_markets@) },
                co_plan(marketsv, protv, pairsv.skip(i as int), smv(messages@).len() as int),
            ),
        decreases n - i,
    {
        let user: String = users_contracts[i].0.clone();
        let contract_address: String = users_contracts[i].1.clone();
        let ghost u = user@;
        let ghost c = contract_address@;
        let ghost k = messages@.len() as int;
        let ghost done = CoPlan {
            msgs: smv(messages@),
            pending: added,
            ignored: prv(ignored_markets@),
        };
        let ghost head = co_pair_plan(marketsv, protv, u, c, k);
        let ghost rest = co_plan(marketsv, protv, pairsv.skip(i as int + 1), k + head.msgs.len());
        proof {
            assert(pairsv.skip(i as int)[0] == pairsv[i as int]);
            assert(pairsv[i as int] == (u, c));
            assert(pairsv.skip(i as int).skip(1) =~= pairsv.skip(i as int + 1));
        }

        if contains_string(&markets, contract_address.as_str()) {
            let msg_id: u64 = CLAIM_ONLY_CLAIM_BASE_ID + (messages.len() as u64);
            let claim_msg = build_FIN_claim_msg(user.clone(), contract_address.clone());
            let ghost pre_pending = *state;
            state.pending_claim_only_data.insert(
                msg_id,
                (protocol.clone(), user.clone(), contract_address.clone()),
            );
            proof {
                added = added.insert(msg_id, (protv, u, c));
                assert(state.pending_co() =~= pre_pending.pending_co().insert(
                    msg_id,
                    (protv, u, c),
                ));
                assert(state.pending_co() =~= old(state).pending_co().union_prefer_right(added));
                assert(state.subs() =~= pre_pending.subs());
                assert(state.registry() =~= pre_pending.registry());
                assert(state.exec_data() =~= pre_pending.exec_data());
                assert(state.pending_cs() =~= pre_pending.pending_cs());
            }
            let ghost pre_msgs = messages@;
            messages.push(SubMsg { id: msg_id, msg: claim_msg, reply_on: ReplyOn::Always });
            proof {
                assert(smv(messages@) =~= smv(pre_msgs).push(messages@[k]@));
                assert(messages@[k]@ == head.msgs[0]);
                assert(smv(messages@) =~= done.msgs + head.msgs);
                assert(added =~= done.pending.union_prefer_right(head.pending));
                assert(prv(ignored_markets@) =~= done.ignored + head.ignored);
            }
        } else {
            ignored_markets.push((user, contract_address));
            proof {
                assert(prv(ignored_markets@) =~= done.ignored + head.ignored);
            }
        }
        proof {
            let done2 = CoPlan {
                msgs: smv(messages@),
                pending: added,
                ignored: prv(ignored_markets@),
            };
            assert(done2 =~= combine_co(done, head));
            lemma_combine_co_assoc(done, head, rest);
            assert(full == combine_co(done2, rest));
        }
        i = i + 1;
    }
    proof {
        assert(pairsv.skip(n as int) =~= Seq::<(Seq<char>, Seq<char>)>::empty());
        let done = CoPlan { msgs: smv(messages@), pending: added, ignored: prv(ignored_markets@) };
        lemma_combine_co_empty_r(done);
        assert(full == done);
    }

    let event = make_dispatch_event("execute_claim_only", "ignored_markets", &ignored_markets);
    let mut events: Vec<Event> = Vec::new();
    events.push(event);
    let resp = Response { messages, attributes: Vec::new(), events };
    proof {
        assert(resp@.attributes =~= Seq::<AttributeV>::empty());
        assert(resp@.events =~= seq![
            dispatch_event("execute_claim_only"@, "ignored_markets"@, full.ignored),
        ]);
    }
    Ok(resp)
}

} // verus!

//! The subscription ledger: users subscribe to registered protocols, the
//! dispatcher reads the ledger as its authorization filter, and two queries
//! expose it.

use vstd::prelude::*;

verus! {

use crate::autoclaimer::error::ContractError;
use crate::autoclaimer::msg::{
    GetSubscribedProtocolsResponse, GetSubscriptionsResponse, ProtocolSubscriptionData,
};
use crate::autoclaimer::state::State;
use crate::host::{Attribute, AttributeV, Response, ResponseV, EventV, SubMsgV};
use crate::text::{
    clone_strings, contains_string, distinct_seqs, join_strings, joined, strings_view,
};
use vstd::string::StringExecFns;

// ---------------------------------------------------------------------------
// What subscribing and unsubscribing do to one user's list.
// ---------------------------------------------------------------------------

/// A list with `p` appended, unless it is already there.
pub open spec fn add_one(l: Seq<Seq<char>>, p: Seq<char>) -> Seq<Seq<char>> {
    if l.contains(p) {
        l
    } else {
        l.push(p)
    }
}

/// The list after subscribing to `ps`, in order: each new protocol is
/// appended once, protocols already present keep their place.
pub open spec fn subscribe_list(l: Seq<Seq<char>>, ps: Seq<Seq<char>>) -> Seq<Seq<char>>
    decreases ps.len(),
{
    if ps.len() == 0 {
        l
    } else {
        subscribe_list(add_one(l, ps[0]), ps.skip(1))
    }
}

/// The list after unsubscribing from `ps`: matching entries leave, the rest
/// keep their order. A protocol not present is simply not matched.
pub open spec fn remove_list(l: Seq<Seq<char>>, ps: Seq<Seq<char>>) -> Seq<Seq<char>> {
    l.filter(|x: Seq<char>| !ps.contains(x))
}

/// A user's current list, empty if the user never subscribed.
pub open spec fn user_list(s: &State, user: Seq<char>) -> Seq<Seq<char>> {
    if s.subs().dom().contains(user) {
        s.subs()[user]
    } else {
        Seq::empty()
    }
}

/// An element is in a sequence exactly when it heads it or is in its tail.
proof fn lemma_contains_head_tail<A>(s: Seq<A>, x: A)
    requires
        s.len() > 0,
    ensures
        s.contains(x) <==> (s[0] == x || s.skip(1).contains(x)),
{
    if s.contains(x) {
        let i = choose|i: int| 0 <= i < s.len() && s[i] == x;
        if i > 0 {
            assert(s.skip(1)[i - 1] == x);
        }
    }
    if s.skip(1).contains(x) {
        let i = choose|i: int| 0 <= i < s.skip(1).len() && s.skip(1)[i] == x;
        assert(s[i + 1] == x);
    }
}

/// Subscribing puts exactly the union of the old list and the new protocols
/// into the list.
pub proof fn lemma_subscribe_membership(l: Seq<Seq<char>>, ps: Seq<Seq<char>>, x: Seq<char>)
    ensures
        subscribe_list(l, ps).contains(x) <==> (l.contains(x) || ps.contains(x)),
    decreases ps.len(),
{
    if ps.len() == 0 {
    } else {
        let l1 = add_one(l, ps[0]);
        lemma_subscribe_membership(l1, ps.skip(1), x);
        lemma_contains_head_tail(ps, x);
        if !l.contains(ps[0]) {
            // l1 == l.push(ps[0])
            assert(l1.contains(x) <==> (l.contains(x) || x == ps[0])) by {
                if l.contains(x) {
                    let i = choose|i: int| 0 <= i < l.len() && l[i] == x;
                    assert(l1[i] == x);
                }
                if x == ps[0] {
                    assert(l1[l.len() as int] == x);
                }
                if l1.contains(x) {
                    let i = choose|i: int| 0 <= i < l1.len() && l1[i] == x;
                    if i < l.len() {
                        assert(l[i] == x);
                    }
                }
            }
        }
    }
}

/// Subscribing never introduces a duplicate.
pub proof fn lemma_subscribe_distinct(l: Seq<Seq<char>>, ps: Seq<Seq<char>>)
    requires
        distinct_seqs(l),
    ensures
        distinct_seqs(subscribe_list(l, ps)),
    decreases ps.len(),
{
    if ps.len() > 0 {
        let l1 = add_one(l, ps[0]);
        assert(distinct_seqs(l1)) by {
            if !l.contains(ps[0]) {
                assert forall|i: int, j: int| 0 <= i < j < l1.len() implies #[trigger] l1[i] != #[trigger] l1[j] by {
                    if j < l.len() {
                        assert(l[i] != l[j]);
                    } else {
                        assert(l1[j] == ps[0]);
                        if l1[i] == ps[0] {
                            assert(l.contains(ps[0]));
                        }
                    }
                }
            }
        }
        lemma_subscribe_distinct(l1, ps.skip(1));
    }
}

/// Subscribing to protocols that are all present already changes nothing.
pub proof fn lemma_subscribe_all_present(l: Seq<Seq<char>>, ps: Seq<Seq<char>>)
    requires
        forall|i: int| 0 <= i < ps.len() ==> l.contains(#[trigger] ps[i]),
    ensures
        subscribe_list(l, ps) == l,
    decreases ps.len(),
{
    if ps.len() > 0 {
        assert(l.contains(ps[0]));
        assert(add_one(l, ps[0]) == l);
        assert(forall|i: int|
            0 <= i < ps.skip(1).len() ==> l.contains(#[trigger] ps.skip(1)[i])) by {
            assert(forall|i: int| 0 <= i < ps.skip(1).len() ==> ps.skip(1)[i] == ps[i + 1]);
        }
        lemma_subscribe_all_present(l, ps.skip(1));
    }
}

/// Subscribing is idempotent: a second subscription to the same protocols
/// leaves the list exactly as the first left it, so an already-subscribed
/// protocol is never duplicated.
pub proof fn lemma_subscribe_idempotent(l: Seq<Seq<char>>, ps: Seq<Seq<char>>)
    ensures
        subscribe_list(subscribe_list(l, ps), ps) == subscribe_list(l, ps),
{
    let l1 = subscribe_list(l, ps);
    assert forall|i: int| 0 <= i < ps.len() implies l1.contains(#[trigger] ps[i]) by {
        lemma_subscribe_membership(l, ps, ps[i]);
    }
    lemma_subscribe_all_present(l1, ps);
}

/// Unsubscribing keeps exactly the entries that are not unsubscribed, in
/// their old order; in particular an unsubscribed protocol is gone.
pub proof fn lemma_remove_membership(l: Seq<Seq<char>>, ps: Seq<Seq<char>>, x: Seq<char>)
    ensures
        remove_list(l, ps).contains(x) <==> (l.contains(x) && !ps.contains(x)),
    decreases l.len(),
{
    reveal(Seq::filter);
    if l.len() == 0 {
    } else {
        lemma_remove_membership(l.drop_last(), ps, x);
        let r = remove_list(l, ps);
        let r0 = remove_list(l.drop_last(), ps);
        if l.contains(x) && !ps.contains(x) {
            if x == l.last() {
                assert(r[r.len() - 1] == x);
            } else {
                let i = choose|i: int| 0 <= i < l.len() && l[i] == x;
                assert(l.drop_last()[i] == x);
                assert(r0.contains(x));
                let j = choose|j: int| 0 <= j < r0.len() && r0[j] == x;
                assert(r[j] == x);
            }
        }
        if r.contains(x) {
            let j = choose|j: int| 0 <= j < r.len() && r[j] == x;
            if !ps.contains(l.last()) {
                if j < r.len() - 1 {
                    assert(r0[j] == x);
                    assert(l.drop_last().contains(x));
                    assert(l.contains(x)) by {
                        let i = choose|i: int| 0 <= i < l.drop_last().len() && l.drop_last()[i] == x;
                        assert(l[i] == x);
                    }
                } else {
                    assert(x == l.last());
                    assert(l.contains(x)) by {
                        assert(l[l.len() - 1] == x);
                    }
                }
            } else {
                assert(r0[j] == x);
                assert(l.drop_last().contains(x));
                assert(l.contains(x)) by {
                    let i = choose|i: int| 0 <= i < l.drop_last().len() && l.drop_last()[i] == x;
                    assert(l[i] == x);
                }
            }
        }
    }
}

/// Unsubscribing from protocols none of which are in the list is a no-op.
pub proof fn lemma_remove_absent_noop(l: Seq<Seq<char>>, ps: Seq<Seq<char>>)
    requires
        forall|i: int| 0 <= i < l.len() ==> !ps.contains(#[trigger] l[i]),
    ensures
        remove_list(l, ps) == l,
    decreases l.len(),
{
    reveal(Seq::filter);
    if l.len() > 0 {
        assert(forall|i: int| 0 <= i < l.drop_last().len() ==> l.drop_last()[i] == l[i]);
        lemma_remove_absent_noop(l.drop_last(), ps);
        assert(!ps.contains(l.last())) by {
            assert(l[l.len() - 1] == l.last());
        }
        assert(remove_list(l, ps) =~= l);
    }
}

/// A subsequence of a duplicate-free list is duplicate-free.
proof fn lemma_remove_distinct(l: Seq<Seq<char>>, ps: Seq<Seq<char>>)
    requires
        distinct_seqs(l),
    ensures
        distinct_seqs(remove_list(l, ps)),
    decreases l.len(),
{
    reveal(Seq::filter);
    if l.len() > 0 {
        assert(distinct_seqs(l.drop_last()));
        lemma_remove_distinct(l.drop_last(), ps);
        let r = remove_list(l, ps);
        let r0 = remove_list(l.drop_last(), ps);
        if !ps.contains(l.last()) {
            assert forall|i: int, j: int| 0 <= i < j < r.len() implies #[trigger] r[i] != #[trigger] r[j] by {
                if j < r.len() - 1 {
                    assert(r0[i] != r0[j]);
                } else {
                    assert(r[j] == l.last());
                    if r0[i] == l.last() {
                        lemma_remove_membership(l.drop_last(), ps, l.last());
                        let w = choose|w: int|
                            0 <= w < l.drop_last().len() && l.drop_last()[w] == l.last();
                        assert(l[w] == l[l.len() - 1]);
                    }
                }
            }
        }
    }
}


// ---------------------------------------------------------------------------
// The entry points' effects, as predicates shared with the dispatcher.
// ---------------------------------------------------------------------------

/// Everything but the subscription ledger is untouched.
pub open spec fn frames_subs_only(pre: &State, post: &State) -> bool {
    &&& post.registry() == pre.registry()
    &&& post.registry_order() == pre.registry_order()
    &&& post.exec_data() == pre.exec_data()
    &&& post.pending_cs() == pre.pending_cs()
    &&& post.pending_co() == pre.pending_co()
    &&& post.config == pre.config
}

/// What a successful subscribe call did: the user's list was extended, in
/// order and without duplicates, by the protocols not yet in it; nothing
/// else changed; the response carries no operations and reports the list.
pub open spec fn subscribe_post(
    pre: &State,
    post: &State,
    user: Seq<char>,
    ps: Seq<Seq<char>>,
    resp: ResponseV,
) -> bool {
    &&& post.subs() == pre.subs().insert(user, subscribe_list(user_list(pre, user), ps))
    &&& frames_subs_only(pre, post)
    &&& resp.messages == Seq::<SubMsgV>::empty()
    &&& resp.events == Seq::<EventV>::empty()
    &&& resp.attributes.len() == 3
    &&& resp.attributes[0] == (AttributeV { key: "action"@, value: "subscribe"@ })
    &&& resp.attributes[1] == (AttributeV { key: "user"@, value: user })
    &&& resp.attributes[2] == (AttributeV {
        key: "subscribed_protocols"@,
        value: joined(subscribe_list(user_list(pre, user), ps)),
    })
}

/// What an unsubscribe call did: the matching entries left the user's list,
/// a user with no record at all was left without one, nothing else changed,
/// and the response carries no operations.
pub open spec fn unsubscribe_post(
    pre: &State,
    post: &State,
    user: Seq<char>,
    ps: Seq<Seq<char>>,
    resp: ResponseV,
) -> bool {
    &&& post.subs() == (if pre.subs().dom().contains(user) {
        pre.subs().insert(user, remove_list(pre.subs()[user], ps))
    } else {
        pre.subs()
    })
    &&& frames_subs_only(pre, post)
    &&& resp.messages == Seq::<SubMsgV>::empty()
    &&& resp.events == Seq::<EventV>::empty()
    &&& resp.attributes.len() == 2
    &&& resp.attributes[0] == (AttributeV { key: "action"@, value: "unsubscribe"@ })
    &&& resp.attributes[1] == (AttributeV { key: "user"@, value: user })
}

// ---------------------------------------------------------------------------
// The entry points.
// ---------------------------------------------------------------------------

/// Subscribes `user` to `protocols`, each of which the caller has validated
/// against the registry: every new protocol is appended once to the user's
/// list, protocols already present keep their place.
pub fn subscribe(state: &mut State, user: String, protocols: Vec<String>) -> (r: Result<
    Response,
    ContractError,
>)
    requires
        old(state).wf(),
        forall|i: int|
            0 <= i < protocols@.len() ==> old(state).registry().dom().contains(
                #[trigger] strings_view(protocols@)[i],
            ),
    ensures
        final(state).wf(),
        r is Ok,
        subscribe_post(old(state), final(state), user@, strings_view(protocols@), r->Ok_0@),
{
    let ghost old_list = user_list(old(state), user@);
    let ghost ps = strings_view(protocols@);

    let mut user_subscriptions: Vec<String> = match state.subscriptions.get(user.as_str()) {
        Some(l) => clone_strings(l),
        None => Vec::new(),
    };
    proof {
        assert(strings_view(user_subscriptions@) =~= old_list);
    }

    let n = protocols.len();
    let mut i: usize = 0;
    proof {
        assert(ps.skip(0) =~= ps);
    }
    while i < n
        invariant
            i <= n,
            n == protocols@.len(),
            ps == strings_view(protocols@),
            subscribe_list(old_list, ps) == subscribe_list(
                strings_view(user_subscriptions@),
                ps.skip(i as int),
            ),
        decreases n - i,
    {
        let ghost cur = strings_view(user_subscriptions@);
        let ghost rest = ps.skip(i as int);
        assert(rest[0] == ps[i as int]);
        if !contains_string(&user_subscriptions, protocols[i].as_str()) {
            user_subscriptions.push(protocols[i].clone());
            proof {
                assert(strings_view(user_subscriptions@) =~= cur.push(ps[i as int]));
            }
        }
        proof {
            assert(strings_view(user_subscriptions@) == add_one(cur, rest[0]));
            assert(rest.skip(1) =~= ps.skip(i as int + 1));
        }
        i = i + 1;
    }
    proof {
        assert(ps.skip(n as int) =~= Seq::<Seq<char>>::empty());
        assert(strings_view(user_subscriptions@) == subscribe_list(old_list, ps));
    }
    let ghost new_list = strings_view(user_subscriptions@);

    let rendered = join_strings(&user_subscriptions);
    state.subscriptions.insert(user.clone(), user_subscriptions);
    proof {
        assert(state.subs() =~= old(state).subs().insert(user@, new_list));
        assert(state.registry() =~= old(state).registry());
        assert(state.pending_cs() =~= old(state).pending_cs());
        assert(state.pending_co() =~= old(state).pending_co());
        assert(state.exec_data() =~= old(state).exec_data());
        assert forall|h: u64|
            state.pending_cs().dom().contains(h) implies state.registry().dom().contains(
            (#[trigger] state.pending_cs()[h]).1,
        ) by {
            assert(old(state).pending_cs().dom().contains(h));
            assert(old(state).registry().dom().contains(old(state).pending_cs()[h].1));
        }
        // The new list keeps the ledger's invariants.
        assert forall|x: Seq<char>| new_list.contains(x) implies old(state).registry().dom().contains(x) by {
            lemma_subscribe_membership(old_list, ps, x);
            if old_list.contains(x) {
                assert(old(state).subscribed(user@, x));
            } else {
                let i = choose|i: int| 0 <= i < ps.len() && ps[i] == x;
            }
        }
        assert(distinct_seqs(old_list)) by {
            if !old(state).subs().dom().contains(user@) {
                assert(old_list =~= Seq::<Seq<char>>::empty());
            }
        }
        lemma_subscribe_distinct(old_list, ps);
        assert forall|u: Seq<char>|
            state.subs().dom().contains(u) implies distinct_seqs(#[trigger] state.subs()[u]) by {
            if u != user@ {
                assert(state.subs()[u] == old(state).subs()[u]);
            }
        }
        assert forall|u: Seq<char>, i: int|
            state.subs().dom().contains(u) && 0 <= i < state.subs()[u].len() implies state.registry().dom().contains(
            #[trigger] state.subs()[u][i],
        ) by {
            if u == user@ {
                assert(new_list.contains(new_list[i]));
            } else {
                assert(state.subs()[u] == old(state).subs()[u]);
            }
        }
    }

    let mut attributes: Vec<Attribute> = Vec::new();
    attributes.push(Attribute::new("action", String::from_str("subscribe")));
    attributes.push(Attribute::new("user", user));
    attributes.push(Attribute::new("subscribed_protocols", rendered));
    let resp = Response { messages: Vec::new(), attributes, events: Vec::new() };
    proof {
        assert(resp@.messages =~= Seq::<SubMsgV>::empty());
        assert(resp@.events =~= Seq::<EventV>::empty());
    }
    Ok(resp)
}

/// Unsubscribes `user` from `protocols`: matching entries leave the list,
/// the rest keep their order. Anything not present is simply not matched,
/// so unsubscribing a never-subscribed protocol — or a user who never
/// subscribed at all — is a silent no-op, never an error.
pub fn unsubscribe(state: &mut State, user: String, protocols: Vec<String>) -> (r: Result<
    Response,
    ContractError,
>)
    requires
        old(state).wf(),
    ensures
        final(state).wf(),
        r is Ok,
        unsubscribe_post(old(state), final(state), user@, strings_view(protocols@), r->Ok_0@),
{
    let ghost ps = strings_view(protocols@);
    let recorded: Option<Vec<String>> = match state.subscriptions.get(user.as_str()) {
        Some(l) => Some(clone_strings(l)),
        None => None,
    };
    if let Some(old_subscriptions) = recorded {
        let ghost old_list = strings_view(old_subscriptions@);
        assert(old_list == old(state).subs()[user@]);

        // Keep the entries that are not being unsubscribed.
        let n = old_subscriptions.len();
        let mut kept: Vec<String> = Vec::new();
        let mut i: usize = 0;
        proof {
            reveal(Seq::filter);
            assert(old_list.take(0) =~= Seq::<Seq<char>>::empty());
            assert(strings_view(kept@) =~= remove_list(old_list.take(0), ps));
        }
        while i < n
            invariant
                i <= n,
                n == old_subscriptions@.len(),
                old_list == strings_view(old_subscriptions@),
                ps == strings_view(protocols@),
                strings_view(kept@) == remove_list(old_list.take(i as int), ps),
            decreases n - i,
        {
            let ghost cur = strings_view(kept@);
            let keep = !contains_string(&protocols, old_subscriptions[i].as_str());
            proof {
                reveal(Seq::filter);
                assert(old_list.take(i as int + 1).drop_last() =~= old_list.take(i as int));
                assert(old_list.take(i as int + 1).last() == old_list[i as int]);
            }
            if keep {
                kept.push(old_subscriptions[i].clone());
                proof {
                    assert(strings_view(kept@) =~= cur.push(old_list[i as int]));
                }
            }
            i = i + 1;
        }
        proof {
            assert(old_list.take(n as int) =~= old_list);
        }
        let ghost new_list = strings_view(kept@);
        assert(new_list == remove_list(old_list, ps));

        state.subscriptions.insert(user.clone(), kept);
        proof {
            assert(state.subs() =~= old(state).subs().insert(user@, new_list));
            assert(state.registry() =~= old(state).registry());
            assert(state.pending_cs() =~= old(state).pending_cs());
            assert(state.pending_co() =~= old(state).pending_co());
            assert(state.exec_data() =~= old(state).exec_data());
            assert forall|h: u64|
                state.pending_cs().dom().contains(h) implies state.registry().dom().contains(
                (#[trigger] state.pending_cs()[h]).1,
            ) by {
                assert(old(state).pending_cs().dom().contains(h));
                assert(old(state).registry().dom().contains(old(state).pending_cs()[h].1));
            }
            assert(distinct_seqs(old_list));
            lemma_remove_distinct(old_list, ps);
            assert forall|u: Seq<char>|
                state.subs().dom().contains(u) implies distinct_seqs(#[trigger] state.subs()[u]) by {
                if u != user@ {
                    assert(state.subs()[u] == old(state).subs()[u]);
                }
            }
            assert forall|u: Seq<char>, i: int|
                state.subs().dom().contains(u) && 0 <= i < state.subs()[u].len() implies state.registry().dom().contains(
                #[trigger] state.subs()[u][i],
            ) by {
                if u == user@ {
                    lemma_remove_membership(old_list, ps, new_list[i]);
                    assert(new_list.contains(new_list[i]));
                    assert(old(state).subscribed(user@, new_list[i]));
                } else {
                    assert(state.subs()[u] == old(state).subs()[u]);
                }
            }
        }
    }

    let mut attributes: Vec<Attribute> = Vec::new();
    attributes.push(Attribute::new("action", String::from_str("unsubscribe")));
    attributes.push(Attribute::new("user", user));
    let resp = Response { messages: Vec::new(), attributes, events: Vec::new() };
    proof {
        assert(resp@.messages =~= Seq::<SubMsgV>::empty());
        assert(resp@.events =~= Seq::<EventV>::empty());
    }
    Ok(resp)
}

// ---------------------------------------------------------------------------
// The queries.
// ---------------------------------------------------------------------------

/// A listing of every user with their subscribed protocols, users in the
/// store's key order.
pub open spec fn subscriptions_response_ok(s: &State, r: GetSubscriptionsResponse) -> bool {
    &&& r.subscriptions@.len() == s.subs_order().len()
    &&& forall|i: int|
        0 <= i < r.subscriptions@.len() ==> (#[trigger] r.subscriptions@[i]).0@
            == s.subs_order()[i] && strings_view(r.subscriptions@[i].1@) == s.subs()[s.subs_order()[i]]
}

/// Lists every user with their subscribed protocols, users in the store's
/// key order.
pub fn query_get_subscriptions(state: &State) -> (r: GetSubscriptionsResponse)
    requires
        state.wf(),
    ensures
        subscriptions_response_ok(state, r),
{
    let n = state.subscriptions.len();
    let mut subscriptions: Vec<(String, Vec<String>)> = Vec::new();
    let mut i: usize = 0;
    while i < n
        invariant
            i <= n,
            state.wf(),
            n == state.subscriptions.entries@.len(),
            subscriptions@.len() == i,
            forall|j: int|
                0 <= j < i ==> (#[trigger] subscriptions@[j]).0@ == state.subs_order()[j]
                    && strings_view(subscriptions@[j].1@) == state.subs()[state.subs_order()[j]],
        decreases n - i,
    {
        let e = &state.subscriptions.entries[i];
        proof {
            state.subscriptions.lemma_entry(i as int);
        }
        subscriptions.push((e.0.clone(), clone_strings(&e.1)));
        i = i + 1;
    }
    GetSubscriptionsResponse { subscriptions }
}

/// One user's listing: their protocols in subscription order, each with the
/// time of its last successful claim in seconds, or nothing where no claim
/// ever succeeded.
pub open spec fn subscribed_protocols_response_ok(
    s: &State,
    user: Seq<char>,
    r: GetSubscribedProtocolsResponse,
) -> bool {
    &&& r.protocols@.len() == user_list(s, user).len()
    &&& forall|i: int|
        0 <= i < r.protocols@.len() ==> {
            let p = user_list(s, user)[i];
            &&& (#[trigger] r.protocols@[i]).protocol@ == p
            &&& r.protocols@[i].last_autoclaim == (if s.exec_data().dom().contains((user, p)) {
                Some((s.exec_data()[(user, p)] / 1_000_000_000) as u64)
            } else {
                None::<u64>
            })
        }
}

/// One user's subscribed protocols, each with the time of its last
/// successful claim in seconds, or nothing where no claim ever succeeded.
pub fn query_get_subscribed_protocols(state: &State, user: String) -> (r:
    GetSubscribedProtocolsResponse)
    requires
        state.wf(),
    ensures
        subscribed_protocols_response_ok(state, user@, r),
{
    let ghost l = user_list(state, user@);
    let user_subscriptions: Vec<String> = match state.subscriptions.get(user.as_str()) {
        Some(v) => clone_strings(v),
        None => Vec::new(),
    };
    proof {
        assert(strings_view(user_subscriptions@) =~= l);
    }

    let n = user_subscriptions.len();
    let mut protocols_data: Vec<ProtocolSubscriptionData> = Vec::new();
    let mut i: usize = 0;
    while i < n
        invariant
            i <= n,
            state.wf(),
            n == user_subscriptions@.len(),
            strings_view(user_subscriptions@) == l,
            protocols_data@.len() == i,
            forall|j: int|
                0 <= j < i ==> {
                    let p = l[j];
                    &&& (#[trigger] protocols_data@[j]).protocol@ == p
                    &&& protocols_data@[j].last_autoclaim == (if state.exec_data().dom().contains(
                        (user@, p),
                    ) {
                        Some((state.exec_data()[(user@, p)] / 1_000_000_000) as u64)
                    } else {
                        None::<u64>
                    })
                },
        decreases n - i,
    {
        let protocol = user_subscriptions[i].clone();
        let key = (user.clone(), protocol.clone());
        let last_autoclaim: Option<u64> = match state.user_execution_data.get(&key) {
            Some(d) => Some(d.last_autoclaim / 1_000_000_000),
            None => None,
        };
        protocols_data.push(ProtocolSubscriptionData { protocol, last_autoclaim });
        i = i + 1;
    }
    GetSubscribedProtocolsResponse { protocols: protocols_data }
}

} // verus!

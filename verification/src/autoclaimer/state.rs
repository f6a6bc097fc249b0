//! The auto-claimer's persistent state and its invariants.

use vstd::prelude::*;

verus! {

use crate::autoclaimer::msg::{ProtocolConfig, ProtocolConfigV};
use crate::storage::{AssocMap, StrMap};
use crate::text::strings_view;

/// The global configuration.
pub struct Config {
    /// The only address allowed to drive batches and change configuration.
    pub owner: String,
    /// The cap on (user, protocol) pairs per batch.
    pub max_parallel_claims: u8,
}

#[verifier::ext_equal]
pub struct ConfigV {
    pub owner: Seq<char>,
    pub max_parallel_claims: u8,
}

impl View for Config {
    type V = ConfigV;

    open spec fn view(&self) -> ConfigV {
        ConfigV { owner: self.owner@, max_parallel_claims: self.max_parallel_claims }
    }
}

/// Execution metadata per (user, protocol): when a claim last succeeded,
/// in nanoseconds of block time.
#[derive(Clone, Copy, PartialEq, Eq, Structural, Debug)]
pub struct ExecutionData {
    pub last_autoclaim: u64,
}

/// The contract's whole store: the global configuration, the protocol
/// registry, the subscription ledger, execution metadata, and the two
/// pending-operation tables that correlate dispatch handles with the context
/// their replies are interpreted in. Pending rows are overwritten when a
/// handle is reused by a later batch but never deleted.
pub struct State {
    pub config: Option<Config>,
    pub protocol_config: StrMap<ProtocolConfig>,
    pub subscriptions: StrMap<Vec<String>>,
    pub user_execution_data: AssocMap<(String, String), ExecutionData>,
    /// handle -> (user, protocol, balance before the claim)
    pub pending_claim_and_stake_data: AssocMap<u64, (String, String, u128)>,
    /// handle -> (protocol, user, market contract)
    pub pending_claim_only_data: AssocMap<u64, (String, String, String)>,
}

impl State {
    /// The registry, at the level of views.
    pub open spec fn registry(&self) -> Map<Seq<char>, ProtocolConfigV> {
        Map::new(
            |k: Seq<char>| self.protocol_config.as_map().dom().contains(k),
            |k: Seq<char>| self.protocol_config.as_map()[k]@,
        )
    }

    /// The registry's keys in storage order.
    pub open spec fn registry_order(&self) -> Seq<Seq<char>> {
        self.protocol_config.key_seq()
    }

    /// The subscription ledger: user -> subscribed protocols, in first-
    /// subscription order.
    pub open spec fn subs(&self) -> Map<Seq<char>, Seq<Seq<char>>> {
        Map::new(
            |k: Seq<char>| self.subscriptions.as_map().dom().contains(k),
            |k: Seq<char>| strings_view(self.subscriptions.as_map()[k]@),
        )
    }

    /// The subscription ledger's keys in storage order.
    pub open spec fn subs_order(&self) -> Seq<Seq<char>> {
        self.subscriptions.key_seq()
    }

    /// Execution metadata: (user, protocol) -> last claim time in
    /// nanoseconds.
    pub open spec fn exec_data(&self) -> Map<(Seq<char>, Seq<char>), u64> {
        Map::new(
            |k: (Seq<char>, Seq<char>)| self.user_execution_data.as_map().dom().contains(k),
            |k: (Seq<char>, Seq<char>)| self.user_execution_data.as_map()[k].last_autoclaim,
        )
    }

    /// Pending claim-and-stake context: handle -> (user, protocol,
    /// balance before).
    pub open spec fn pending_cs(&self) -> Map<u64, (Seq<char>, Seq<char>, u128)> {
        Map::new(
            |k: u64| self.pending_claim_and_stake_data.as_map().dom().contains(k),
            |k: u64| self.pending_claim_and_stake_data.as_map()[k]@,
        )
    }

    /// Pending claim-only context: handle -> (protocol, user, market).
    pub open spec fn pending_co(&self) -> Map<u64, (Seq<char>, Seq<char>, Seq<char>)> {
        Map::new(
            |k: u64| self.pending_claim_only_data.as_map().dom().contains(k),
            |k: u64| self.pending_claim_only_data.as_map()[k]@,
        )
    }

    /// Whether `user` is subscribed to `protocol`.
    pub open spec fn subscribed(&self, user: Seq<char>, protocol: Seq<char>) -> bool {
        self.subs().dom().contains(user) && self.subs()[user].contains(protocol)
    }

    /// The tables' own invariants, before a configuration exists.
    pub open spec fn tables_wf(&self) -> bool {
        &&& self.protocol_config.wf()
        &&& self.subscriptions.wf()
        &&& self.user_execution_data.wf()
        &&& self.pending_claim_and_stake_data.wf()
        &&& self.pending_claim_only_data.wf()
        &&& forall|k: Seq<char>|
            self.registry().dom().contains(k) ==> (#[trigger] self.registry()[k]).valid()
        &&& forall|k: Seq<char>|
            self.registry().dom().contains(k) ==> (#[trigger] self.registry()[k]).protocol == k
        &&& forall|u: Seq<char>, i: int|
            self.subs().dom().contains(u) && 0 <= i < self.subs()[u].len() ==> self.registry().dom().contains(
                #[trigger] self.subs()[u][i],
            )
        &&& forall|u: Seq<char>|
            self.subs().dom().contains(u) ==> crate::text::distinct_seqs(#[trigger] self.subs()[u])
        &&& forall|h: u64|
            self.pending_cs().dom().contains(h) ==> self.registry().dom().contains(
                (#[trigger] self.pending_cs()[h]).1,
            )
        &&& forall|h: u64|
            #[trigger] self.pending_cs().dom().contains(h)
                ==> crate::autoclaimer::batch::CLAIM_AND_STAKE_CLAIM_BASE_ID <= h
                < crate::autoclaimer::batch::CLAIM_AND_STAKE_STAKE_BASE_ID
    }

    /// The full invariant once the contract is instantiated: the tables are
    /// well formed, stored fee ratios never exceed 1, a user's subscription
    /// list holds no duplicates and only registered protocols, pending
    /// claim-and-stake context always names a registered protocol, and a
    /// configuration is in place.
    pub open spec fn wf(&self) -> bool {
        &&& self.tables_wf()
        &&& self.config is Some
    }

    /// The configured owner.
    pub open spec fn owner(&self) -> Seq<char>
        recommends
            self.wf(),
    {
        self.config->0@.owner
    }

    /// The configured batch cap.
    pub open spec fn max_parallel_claims(&self) -> u8
        recommends
            self.wf(),
    {
        self.config->0@.max_parallel_claims
    }

    /// Replacing the configuration alone leaves every table view, and the
    /// tables' invariants, as they were.
    pub proof fn lemma_config_changed(pre: &State, post: &State)
        requires
            post.protocol_config == pre.protocol_config,
            post.subscriptions == pre.subscriptions,
            post.user_execution_data == pre.user_execution_data,
            post.pending_claim_and_stake_data == pre.pending_claim_and_stake_data,
            post.pending_claim_only_data == pre.pending_claim_only_data,
        ensures
            post.registry() == pre.registry(),
            post.registry_order() == pre.registry_order(),
            post.subs() == pre.subs(),
            post.exec_data() == pre.exec_data(),
            post.pending_cs() == pre.pending_cs(),
            post.pending_co() == pre.pending_co(),
            pre.tables_wf() ==> post.tables_wf(),
    {
        assert(post.registry() =~= pre.registry());
        assert(post.subs() =~= pre.subs());
        assert(post.exec_data() =~= pre.exec_data());
        assert(post.pending_cs() =~= pre.pending_cs());
        assert(post.pending_co() =~= pre.pending_co());
    }

    /// Growing the registry with valid, consistently keyed entries keeps the
    /// tables' invariants; nothing else may change.
    pub proof fn lemma_tables_wf_registry_grown(pre: &State, post: &State)
        requires
            pre.tables_wf(),
            post.protocol_config.wf(),
            post.subscriptions == pre.subscriptions,
            post.user_execution_data == pre.user_execution_data,
            post.pending_claim_and_stake_data == pre.pending_claim_and_stake_data,
            post.pending_claim_only_data == pre.pending_claim_only_data,
            forall|k: Seq<char>|
                pre.registry().dom().contains(k) ==> post.registry().dom().contains(k),
            forall|k: Seq<char>|
                post.registry().dom().contains(k) ==> (#[trigger] post.registry()[k]).valid(),
            forall|k: Seq<char>|
                post.registry().dom().contains(k) ==> (#[trigger] post.registry()[k]).protocol
                    == k,
        ensures
            post.tables_wf(),
    {
        assert(post.subs() =~= pre.subs());
        assert(post.exec_data() =~= pre.exec_data());
        assert(post.pending_cs() =~= pre.pending_cs());
        assert(post.pending_co() =~= pre.pending_co());
    }

    /// An empty store, as a fresh deployment starts with.
    pub fn new() -> (r: State)
        ensures
            r.tables_wf(),
            r.config is None,
            r.registry() =~= Map::<Seq<char>, ProtocolConfigV>::empty(),
            r.subs() =~= Map::<Seq<char>, Seq<Seq<char>>>::empty(),
            r.exec_data() =~= Map::<(Seq<char>, Seq<char>), u64>::empty(),
            r.pending_cs() =~= Map::<u64, (Seq<char>, Seq<char>, u128)>::empty(),
            r.pending_co() =~= Map::<u64, (Seq<char>, Seq<char>, Seq<char>)>::empty(),
    {
        State {
            config: None,
            protocol_config: StrMap::new(),
            subscriptions: StrMap::new(),
            user_execution_data: AssocMap::new(),
            pending_claim_and_stake_data: AssocMap::new(),
            pending_claim_only_data: AssocMap::new(),
        }
    }
}

} // verus!

//! The order-protection contract's persistent state.

use vstd::prelude::*;

verus! {

use crate::autosltp::fin::{Denoms, DenomsV, Price, Side};
use crate::storage::{AssocKey, AssocMap, StrMap};
use vstd::string::StringExecFns;

/// The global configuration.
pub struct Config {
    pub owner: String,
}

#[verifier::ext_equal]
pub struct ConfigV {
    pub owner: Seq<char>,
}

impl View for Config {
    type V = ConfigV;

    open spec fn view(&self) -> ConfigV {
        ConfigV { owner: self.owner@ }
    }
}

/// One resting order with its protection bounds, prices in 18-decimal
/// atomics.
#[derive(Clone, Copy, PartialEq, Eq, Structural, Debug)]
pub struct UserOrder {
    pub amount: u128,
    pub price_sl: Option<u128>,
    pub price_tp: Option<u128>,
}

/// Distinguishes how an order book pool prices itself; the byte it encodes
/// to prefixes an order's storage key.
#[derive(Clone, Copy, PartialEq, Eq, Structural, Debug)]
pub enum PoolType {
    Fixed,
    Oracle,
}

impl PoolType {
    /// The byte this pool type writes into a storage key.
    pub fn key(&self) -> (r: u8)
        ensures
            r == (if self is Fixed {
                0u8
            } else {
                1u8
            }),
    {
        match self {
            PoolType::Fixed => 0,
            PoolType::Oracle => 1,
        }
    }

    /// Decodes a pool type from the first byte of a stored key.
    pub fn from_vec(value: Vec<u8>) -> (r: Result<PoolType, String>)
        ensures
            value@.len() > 0 && value@[0] == 0 ==> r == Ok::<PoolType, String>(PoolType::Fixed),
            value@.len() > 0 && value@[0] == 1 ==> r == Ok::<PoolType, String>(PoolType::Oracle),
            value@.len() == 0 || value@[0] > 1 ==> r is Err,
    {
        if value.len() > 0 && value[0] == 0 {
            Ok(PoolType::Fixed)
        } else if value.len() > 0 && value[0] == 1 {
            Ok(PoolType::Oracle)
        } else {
            Err(String::from_str("invalid PoolType key"))
        }
    }
}

/// Where in a market's book an order rests: the side and the price.
#[derive(Clone, Copy, PartialEq, Eq, Structural, Debug)]
pub struct PoolKey {
    pub side: Side,
    pub price: Price,
}

impl View for PoolKey {
    type V = PoolKey;

    open spec fn view(&self) -> PoolKey {
        *self
    }
}

impl PoolKey {
    pub fn new(side: Side, price: Price) -> (r: Self)
        ensures
            r == (PoolKey { side, price }),
    {
        PoolKey { side, price }
    }
}

impl AssocKey for (String, String, PoolKey) {
    fn key_eq(&self, other: &Self) -> (r: bool) {
        self.0.eq(&other.0) && self.1.eq(&other.1) && self.2 == other.2
    }
}

/// The contract's whole store: the configuration, the registered markets
/// with their pair denominations, the resting orders keyed by (user,
/// market, pool position), and the user whose claimed funds are in flight
/// between a swap dispatch and its reply.
pub struct State {
    pub config: Option<Config>,
    pub fin_contracts: StrMap<Denoms>,
    pub user_orders: AssocMap<(String, String, PoolKey), UserOrder>,
    pub in_flight_user: Option<String>,
}

impl State {
    /// The registered markets at the level of views.
    pub open spec fn markets(&self) -> Map<Seq<char>, DenomsV> {
        Map::new(
            |k: Seq<char>| self.fin_contracts.as_map().dom().contains(k),
            |k: Seq<char>| self.fin_contracts.as_map()[k]@,
        )
    }

    /// The resting orders.
    pub open spec fn orders(&self) -> Map<(Seq<char>, Seq<char>, PoolKey), UserOrder> {
        Map::new(
            |k: (Seq<char>, Seq<char>, PoolKey)| self.user_orders.as_map().dom().contains(k),
            |k: (Seq<char>, Seq<char>, PoolKey)| self.user_orders.as_map()[k],
        )
    }

    /// The user whose funds are in flight, at the level of views.
    pub open spec fn in_flight(&self) -> Option<Seq<char>> {
        match self.in_flight_user {
            Some(ref u) => Some(u@),
            None => None,
        }
    }

    pub open spec fn tables_wf(&self) -> bool {
        &&& self.fin_contracts.wf()
        &&& self.user_orders.wf()
    }

    /// The invariant once the contract is instantiated.
    pub open spec fn wf(&self) -> bool {
        &&& self.tables_wf()
        &&& self.config is Some
    }

    /// The configured owner.
    pub open spec fn owner(&self) -> Seq<char>
        recommends
            self.wf(),
    {
        self.config->0@.owner
    }

    /// An empty store, as a fresh deployment starts with.
    pub fn new() -> (r: State)
        ensures
            r.tables_wf(),
            r.config is None,
            r.in_flight_user is None,
            r.markets() =~= Map::<Seq<char>, DenomsV>::empty(),
            r.orders() =~= Map::<(Seq<char>, Seq<char>, PoolKey), UserOrder>::empty(),
    {
        State {
            config: None,
            fin_contracts: StrMap::new(),
            user_orders: AssocMap::new(),
            in_flight_user: None,
        }
    }
}

} // verus!

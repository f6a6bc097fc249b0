//! The order-book market's vocabulary, as the order-protection contract sees
//! it: the side of a pair, a price (an 18-decimal fixed point held as atomic
//! units), and a pair's two denominations.

use vstd::prelude::*;

verus! {

/// The side of a trading pair an order sits on.
#[derive(Clone, Copy, PartialEq, Eq, Structural, Debug)]
pub enum Side {
    Base,
    Quote,
}

/// An order price: fixed, or tracking the oracle at a premium. Both carry
/// 18-decimal atomic units.
#[derive(Clone, Copy, PartialEq, Eq, Structural, Debug)]
pub enum Price {
    Fixed(u128),
    Oracle(u128),
}

/// The two denominations of a trading pair.
pub struct Denoms {
    pub base: String,
    pub quote: String,
}

pub struct DenomsV {
    pub base: Seq<char>,
    pub quote: Seq<char>,
}

impl View for Denoms {
    type V = DenomsV;

    open spec fn view(&self) -> DenomsV {
        DenomsV { base: self.base@, quote: self.quote@ }
    }
}

impl Denoms {
    /// The base denomination.
    pub fn base(&self) -> (r: &str)
        ensures
            r@ == self@.base,
    {
        self.base.as_str()
    }

    /// The quote denomination.
    pub fn quote(&self) -> (r: &str)
        ensures
            r@ == self@.quote,
    {
        self.quote.as_str()
    }
}

} // verus!

//! The order-protection contract's entry-point messages.

use vstd::prelude::*;

verus! {

use crate::autosltp::fin::{Denoms, Price, Side};

/// The initial configuration.
pub struct InstantiateMsg {
    pub owner: String,
}

/// The execute entry points.
pub enum ExecuteMsg {
    /// Registers a market contract with its pair denominations; owner-only.
    AddMarket { fin_contract_address: String, denoms: Denoms },
    /// Places an order with optional stop-loss and take-profit bounds; the
    /// attached funds must be exactly the order's amount in the side's
    /// denomination.
    PlaceOrder {
        fin_contract_address: String,
        side: Side,
        price: Price,
        amount: u128,
        price_sl: Option<u128>,
        price_tp: Option<u128>,
    },
    /// Claims and swaps a protected order once its stop-loss or take-profit
    /// bound is reached at the oracle price.
    ExecuteSlTp {
        user_address: String,
        fin_contract_address: String,
        side: Side,
        price: Price,
        claim_amount: u128,
    },
}

/// The query entry points.
pub enum QueryMsg {
    Config {},
}

/// The config query's answer.
pub struct ConfigResponse {
    pub owner: String,
}

} // verus!

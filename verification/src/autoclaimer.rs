//! The automated reward-claiming contract: registry, subscriptions, batch
//! dispatch, and reply settlement.

pub mod batch;
pub mod contract;
pub mod error;
pub mod msg;
pub mod settle;
pub mod state;
pub mod subs;

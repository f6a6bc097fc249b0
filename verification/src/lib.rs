//! Verified core of an automated reward-claiming contract suite: an
//! owner-driven batch dispatcher that issues claim operations on behalf of
//! subscribed users, a reply correlator that settles each operation and splits
//! the claimed amount into a fee and a stake portion, and a smaller stop-loss /
//! take-profit order manager built on the same dispatch-and-reply pattern.

pub mod arith;
pub mod autoclaimer;
pub mod autosltp;
pub mod common;
pub mod host;
pub mod storage;
pub mod text;

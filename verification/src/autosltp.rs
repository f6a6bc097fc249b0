//! The stop-loss / take-profit order manager.

pub mod contract;
pub mod fin;
pub mod msg;
pub mod state;

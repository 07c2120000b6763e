//! The vault accounting engine: pooled deposits, proportional share
//! issuance and redemption, and allocation-leg bookkeeping.

pub mod contract;
pub mod error;
pub mod events;
pub mod msg;
pub mod state;

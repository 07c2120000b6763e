//! The escrow case engine: multi-party cases over a custodied amount,
//! arbitrated under pluggable authorization models, with dispute,
//! resolution, and conditional fund release.

pub mod contract;
pub mod error;
pub mod events;
pub mod msg;
pub mod state;

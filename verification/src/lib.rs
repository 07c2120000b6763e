//! A suite of deterministic ledger components for a smart-contract host:
//! a multi-party escrow case engine, a share-based vault accounting engine,
//! and four smaller companions (username registry, contribution pools,
//! timed transfers, savings pots).
//!
//! Every engine is a pure state machine over plain values: the host's
//! storage, address validation and fund settlement stay outside, and each
//! command handler returns the declarative messages and events the host is
//! expected to act on.

pub mod alias;
pub mod common;
pub mod payments;
pub mod pots;
pub mod risk_escrow;
pub mod vaults;
pub mod groups;
pub mod host;
pub mod strings;

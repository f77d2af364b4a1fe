//! Deterministic transaction actuators for a Tron-compatible blockchain node.
//!
//! The crate models the on-chain state touched by the built-in account
//! contracts (accounts, witnesses, chain parameters), the permission algebra
//! that validates multisig descriptors, and the two-phase validate/execute
//! protocol that the manager drives for each inbound contract.  Every state
//! transition is specified against a mathematical view of the state database,
//! so that all nodes running this logic produce identical verdicts and
//! identical state.

pub mod account;
pub mod address;
pub mod context;
pub mod errors;
pub mod hex_codec;
pub mod manager;
pub mod permission;
pub mod state_db;
pub mod tx;

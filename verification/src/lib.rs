//! Registries for a chain-abstraction RPC gateway.
//!
//! Two read-only tables built once at startup from literal data: a weighted
//! multi-provider routing table that maps a chain identifier to upstream RPC
//! endpoints and serves weighted, failover-capable selection, and a
//! cross-chain bridging-asset registry that maps a symbolic asset to its
//! contract address and balance-simulation parameters on every supported
//! chain.

pub mod address;
pub mod assets;
pub mod chain;
pub mod provider;
pub mod redbelly;
pub mod weight;

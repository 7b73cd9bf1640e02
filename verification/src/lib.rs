//! Verified core of an optimistic-rollup fault-proof service.
//!
//! The library holds what the service decides and computes. What it learns from the network comes
//! in as plain values, and what it wants done goes out as plain values.

pub mod client;
pub mod commands;
pub mod common;
pub mod components;
pub mod config;
pub mod eigenda;
pub mod monitor;
pub mod proving;
pub mod range_optimizer;
pub mod rpc;
pub mod witness;

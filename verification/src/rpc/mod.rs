//! What the service learns from the consensus and execution layers.

pub mod cl;
pub mod client_laws;
pub mod el;
pub mod l1_range_cache;
pub mod safe_head_laws;
pub mod spread;

//! Blocks whose data lies on EigenDA.

pub mod cache_key;
pub mod host;
pub mod payload_laws;
pub mod precache_laws;
pub mod precacher;
pub mod provider;
pub mod witness_laws;
pub mod witness_run;

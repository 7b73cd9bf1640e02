//! The data that a proof program is given instead of network access.

pub mod preimage_laws;
pub mod preimage_store;

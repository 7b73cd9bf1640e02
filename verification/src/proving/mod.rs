//! What a proof is about.

pub mod host;
pub mod input_laws;

//! Derivation of L2 blocks up to a target.

pub mod advance;
pub mod derivation_laws;
pub mod hardforks;

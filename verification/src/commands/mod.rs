//! What the command-line tools decide.

pub mod propose;
pub mod prover;

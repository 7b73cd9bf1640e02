//! Deployment parameters out of environment variables.

pub mod args;
pub mod config_laws;
pub mod fault_dispute_game;

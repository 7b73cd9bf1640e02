//! The parts of the service, each as the decisions that it makes.

pub mod app_driver;
pub mod canonical_head_laws;
pub mod challenger_laws;
pub mod creation_laws;
pub mod fetch_laws;
pub mod game_challenger;
pub mod game_creator;
pub mod game_fetcher;
pub mod run_loop;
pub mod service_laws;
pub mod tx_manager;

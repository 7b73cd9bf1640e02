//! Values shared by all parts of the service.

pub mod blocks;
pub mod bytes;
pub mod challenge_laws;
pub mod cl_rpc_utils;
pub mod contract;
pub mod fixed_bytes;
pub mod hashing;
pub mod option_laws;
pub mod primitives;
pub mod state;
pub mod text;

//! # Qcloud SDK
//!
//! Supports:
//! - CVM [`cvm`]
//! - Lighthouse [`lighthouse`]
pub mod cvm;
pub mod lighthouse;

pub mod util;

pub use util::{CommonResponse, Empty, ErrorResponse, MachineType, ResponseWrapper, Secret};

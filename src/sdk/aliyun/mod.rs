//! # Aliyun SDK
//!
//! Supports:
//! - ECS [`ecs`]
//! - SAS [`sas`]
pub mod ecs;
pub mod sas;
pub mod util;

pub use util::{CommonResponse, Empty, MachineType, Secret};

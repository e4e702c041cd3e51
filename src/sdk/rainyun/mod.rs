//! # Rainyun SDK
//!
//! Supports:
//! - RCS [`rcs`]
pub mod rcs;
pub mod util;

pub use util::CommonResponse;

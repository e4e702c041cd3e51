//! # Solo library
//!
//! A lightweight port protection tool: it keeps the source address of named
//! cloud firewall rules pointed at the operator's current public address.
//!
//! The library holds the logic of that work and proves it: request signing,
//! canonical query strings, classification of provider responses, and the
//! comparison that decides which rules must change. Sending requests and
//! reading responses is left to the caller.
mod error;
pub mod json;
pub mod notification;
pub mod sdk;
pub mod util;

pub use error::SdkError;

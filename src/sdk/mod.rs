//! # Solo SDKs
//!
//! One module per cloud provider.
//!
//! Where a firewall rule holds both an IPv4 and an IPv6 address, an empty
//! current address leaves that family's field as it is: providing only an
//! IPv4 address replaces only the IPv4 field, and the same for IPv6.
pub mod aliyun;
pub mod driver;
pub mod qcloud;
pub mod rainyun;
pub mod request;

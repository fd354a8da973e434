//! Keeps PowerDNS `A` records in step with the host's public IPv4 address.
//!
//! The library holds the decisions: how configuration values are merged and
//! checked, how DNS names are normalised, how the update request is framed,
//! how a public-ip reply is read, and when records must be rewritten.
//! Reading the environment, files and the network is left to the caller.
pub mod text;
pub mod ipv4;
pub mod number;
pub mod config;
pub mod public_ip;
pub mod powerdns;
pub mod sync;

//! Names of hosts on the LAN.
pub mod config;
pub mod outside;
pub mod registry;

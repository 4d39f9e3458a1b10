//! Network address translation: dynamic port ranges, static mappings, what a
//! static mapping resolves to, and the entries that the data path looks up.
pub mod config;
pub mod entries;
pub mod error;
pub mod ports;
pub mod resolve;
pub mod setup;
pub mod static_nat;
pub mod static_nat_v4;
pub mod static_nat_v6;
pub mod wire;

//! The decision logic of a software router: IPv6 prefix planning for the LAN
//! side, NAT and PPP configuration rules, DNS handling, the hostname registry
//! and the reverse-proxy gateway.
pub mod config;
pub mod device;
pub mod dhcp;
pub mod dns;
pub mod entry_map;
pub mod error;
pub mod gateway;
pub mod hostname;
pub mod ids;
pub mod lan_ipv6;
pub mod name_map;
pub mod natting;
pub mod net;
pub mod ppp;
pub mod text;
pub mod viewed;
pub mod zone;

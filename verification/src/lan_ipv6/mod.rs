//! IPv6 on LAN interfaces: which prefixes are announced and handed out, and
//! which configurations are accepted.
pub mod blocks;
pub mod config;
pub mod dhcpv6_config;
pub mod dhcpv6_status;
pub mod ipv6_ra;
pub mod prefix_group;
pub mod source_config;
pub mod subnet;

pub use subnet::{
    allocate_subnet, checked_allocate_subnet, checked_combine_ipv6_prefix_suffix,
    checked_extract_ipv6_suffix, combine_ipv6_prefix_suffix, extract_ipv6_suffix,
};

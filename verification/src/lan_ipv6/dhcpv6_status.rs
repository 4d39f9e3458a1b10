//! What the DHCPv6 server has handed out.
use vstd::prelude::*;
use crate::net::{Ipv6Addr, MacAddr};

verus! {

#[derive(Debug)]
pub struct DHCPv6OfferInfo {
    pub relative_boot_time: u64,
    pub offered_addresses: Vec<DHCPv6AddressItem>,
    pub delegated_prefixes: Vec<DHCPv6PrefixItem>,
}

#[derive(Debug)]
pub struct DHCPv6AddressItem {
    pub duid: Option<String>,
    pub mac: Option<MacAddr>,
    pub ip: Ipv6Addr,
    pub hostname: Option<String>,
    pub relative_active_time: u64,
    pub preferred_lifetime: u32,
    pub valid_lifetime: u32,
    pub is_static: bool,
    pub prev_suffix: Option<u64>,
}

#[derive(Debug)]
pub struct DHCPv6PrefixItem {
    pub duid: Option<String>,
    pub prefix: Ipv6Addr,
    pub prefix_len: u8,
    pub relative_active_time: u64,
    pub preferred_lifetime: u32,
    pub valid_lifetime: u32,
}

impl Default for DHCPv6OfferInfo {
    fn default() -> (r: Self)
        ensures
            r.relative_boot_time == 0,
            r.offered_addresses@.len() == 0,
            r.delegated_prefixes@.len() == 0,
    {
        DHCPv6OfferInfo {
            relative_boot_time: 0,
            offered_addresses: Vec::new(),
            delegated_prefixes: Vec::new(),
        }
    }
}

} // verus!

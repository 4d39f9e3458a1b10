//! What can go wrong with the DHCPv4 server.
use vstd::prelude::*;
use crate::net::Ipv4Addr;

verus! {

#[derive(Debug)]
pub enum DhcpError {
    ConfigNotFound { id: String },
    IpConflict { conflict_iface: String, range_start: Ipv4Addr, range_end: Ipv4Addr },
}

impl DhcpError {
    pub open spec fn text(self) -> Seq<char> {
        match self {
            DhcpError::ConfigNotFound { id } => "DHCPv4 service config for '"@ + id@
                + "' not found"@,
            DhcpError::IpConflict { conflict_iface, range_start, range_end } =>
            "DHCP IP range conflict with interface '"@ + conflict_iface@ + "': "@
                + range_start.text() + " - "@ + range_end.text(),
        }
    }

    pub fn message(&self) -> (r: String)
        ensures
            r@ == self.text(),
    {
        match self {
            DhcpError::ConfigNotFound { id } => "DHCPv4 service config for '".to_owned().concat(
                id,
            ).concat("' not found"),
            DhcpError::IpConflict { conflict_iface, range_start, range_end } =>
            "DHCP IP range conflict with interface '".to_owned().concat(conflict_iface).concat(
                "': ",
            ).concat(&range_start.to_text()).concat(" - ").concat(&range_end.to_text()),
        }
    }

    pub fn error_id(&self) -> (r: &'static str)
        ensures
            r@ == (match *self {
                DhcpError::ConfigNotFound { .. } => "dhcp.config_not_found"@,
                DhcpError::IpConflict { .. } => "dhcp.ip_conflict"@,
            }),
    {
        match self {
            DhcpError::ConfigNotFound { .. } => "dhcp.config_not_found",
            DhcpError::IpConflict { .. } => "dhcp.ip_conflict",
        }
    }

    pub fn http_status_code(&self) -> (r: u16)
        ensures
            r == (match *self {
                DhcpError::ConfigNotFound { .. } => 404u16,
                DhcpError::IpConflict { .. } => 409,
            }),
    {
        match self {
            DhcpError::ConfigNotFound { .. } => 404,
            DhcpError::IpConflict { .. } => 409,
        }
    }
}

} // verus!

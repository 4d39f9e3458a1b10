//! What can go wrong with NAT, how it is reported and with which HTTP status.
use vstd::prelude::*;
use crate::ids::{id_text, uuid_text, ConfigId};
use crate::text::{decimal, decimal_text};

verus! {

#[derive(Debug)]
pub enum NatServiceError {
    NotFound(String),
    PortStartZero { name: String },
    PortRangeInvalid { name: String, start: u16, end: u16 },
    Internal(String),
}

impl NatServiceError {
    pub open spec fn text(self) -> Seq<char> {
        match self {
            NatServiceError::NotFound(iface) => "NAT config not found for '"@ + iface@ + "'"@,
            NatServiceError::PortStartZero { name } => name@ + " start port must be > 0"@,
            NatServiceError::PortRangeInvalid { name, start, end } => name@ + " start ("@ + decimal(
                start as nat,
            ) + ") must be less than end ("@ + decimal(end as nat) + ")"@,
            NatServiceError::Internal(cause) => cause@,
        }
    }

    pub fn message(&self) -> (r: String)
        ensures
            r@ == self.text(),
    {
        match self {
            NatServiceError::NotFound(iface) => "NAT config not found for '".to_owned().concat(
                iface,
            ).concat("'"),
            NatServiceError::PortStartZero { name } => name.clone().concat(
                " start port must be > 0",
            ),
            NatServiceError::PortRangeInvalid { name, start, end } => name.clone().concat(
                " start (",
            ).concat(&decimal_text(*start as u128)).concat(") must be less than end (").concat(
                &decimal_text(*end as u128),
            ).concat(")"),
            NatServiceError::Internal(cause) => cause.clone(),
        }
    }

    pub fn error_id(&self) -> (r: &'static str)
        ensures
            r@ == (match *self {
                NatServiceError::NotFound(_) => "nat.not_found"@,
                NatServiceError::PortStartZero { .. } => "nat.port_start_zero"@,
                NatServiceError::PortRangeInvalid { .. } => "nat.port_range_invalid"@,
                NatServiceError::Internal(_) => "nat.internal"@,
            }),
    {
        match self {
            NatServiceError::NotFound(_) => "nat.not_found",
            NatServiceError::PortStartZero { .. } => "nat.port_start_zero",
            NatServiceError::PortRangeInvalid { .. } => "nat.port_range_invalid",
            NatServiceError::Internal(_) => "nat.internal",
        }
    }

    pub fn http_status_code(&self) -> (r: u16)
        ensures
            r == (match *self {
                NatServiceError::NotFound(_) => 404u16,
                NatServiceError::PortStartZero { .. } => 422,
                NatServiceError::PortRangeInvalid { .. } => 422,
                NatServiceError::Internal(_) => 500,
            }),
    {
        match self {
            NatServiceError::NotFound(_) => 404,
            NatServiceError::PortStartZero { .. } => 422,
            NatServiceError::PortRangeInvalid { .. } => 422,
            NatServiceError::Internal(_) => 500,
        }
    }
}

#[derive(Debug)]
pub enum StaticNatError {
    NotFound(ConfigId),
    DeviceNotFound(ConfigId),
    DeviceMissingIpv4(ConfigId),
    DeviceMissingIpv6(ConfigId),
    InvalidTarget(String),
    PortConflict { port: u16, iface_name: String, protocol: u8, start: u16, end: u16 },
    PortInDynamicRange { mapping_id: ConfigId, port: u16, protocol: u8, start: u16, end: u16 },
    Internal(String),
}

impl StaticNatError {
    pub open spec fn text(self) -> Seq<char> {
        match self {
            StaticNatError::NotFound(id) => "Static NAT mapping '"@ + uuid_text(id)
                + "' not found"@,
            StaticNatError::DeviceNotFound(id) => "Device '"@ + uuid_text(id)
                + "' referenced in static NAT config does not exist"@,
            StaticNatError::DeviceMissingIpv4(id) => "Device '"@ + uuid_text(id)
                + "' does not have an IPv4 address"@,
            StaticNatError::DeviceMissingIpv6(id) => "Device '"@ + uuid_text(id)
                + "' does not have an IPv6 address"@,
            StaticNatError::InvalidTarget(why) =>
            "Static NAT target must resolve to a valid target: "@ + why@,
            StaticNatError::PortConflict { port, iface_name, protocol, start, end } =>
            "Static NAT port "@ + decimal(port as nat) + " conflicts with dynamic range on '"@
                + iface_name@ + "' ("@ + decimal(protocol as nat) + " range "@ + decimal(
                start as nat,
            ) + "-"@ + decimal(end as nat) + ")"@,
            StaticNatError::PortInDynamicRange { mapping_id, port, protocol, start, end } =>
            "Static NAT mapping "@ + uuid_text(mapping_id) + " port "@ + decimal(port as nat)
                + " overlaps with dynamic "@ + decimal(protocol as nat) + " range "@ + decimal(
                start as nat,
            ) + "-"@ + decimal(end as nat),
            StaticNatError::Internal(cause) => cause@,
        }
    }

    pub fn message(&self) -> (r: String)
        ensures
            r@ == self.text(),
    {
        match self {
            StaticNatError::NotFound(id) => "Static NAT mapping '".to_owned().concat(
                &id_text(*id),
            ).concat("' not found"),
            StaticNatError::DeviceNotFound(id) => "Device '".to_owned().concat(
                &id_text(*id),
            ).concat("' referenced in static NAT config does not exist"),
            StaticNatError::DeviceMissingIpv4(id) => "Device '".to_owned().concat(
                &id_text(*id),
            ).concat("' does not have an IPv4 address"),
            StaticNatError::DeviceMissingIpv6(id) => "Device '".to_owned().concat(
                &id_text(*id),
            ).concat("' does not have an IPv6 address"),
            StaticNatError::InvalidTarget(why) =>
            "Static NAT target must resolve to a valid target: ".to_owned().concat(why),
            StaticNatError::PortConflict { port, iface_name, protocol, start, end } =>
            "Static NAT port ".to_owned().concat(&decimal_text(*port as u128)).concat(
                " conflicts with dynamic range on '",
            ).concat(iface_name).concat("' (").concat(&decimal_text(*protocol as u128)).concat(
                " range ",
            ).concat(&decimal_text(*start as u128)).concat("-").concat(
                &decimal_text(*end as u128),
            ).concat(")"),
            StaticNatError::PortInDynamicRange { mapping_id, port, protocol, start, end } =>
            "Static NAT mapping ".to_owned().concat(&id_text(*mapping_id)).concat(" port ").concat(
                &decimal_text(*port as u128),
            ).concat(" overlaps with dynamic ").concat(&decimal_text(*protocol as u128)).concat(
                " range ",
            ).concat(&decimal_text(*start as u128)).concat("-").concat(
                &decimal_text(*end as u128),
            ),
            StaticNatError::Internal(cause) => cause.clone(),
        }
    }

    pub fn error_id(&self) -> (r: &'static str)
        ensures
            r@ == (match *self {
                StaticNatError::NotFound(_) => "static_nat.not_found"@,
                StaticNatError::DeviceNotFound(_) => "static_nat.device_not_found"@,
                StaticNatError::DeviceMissingIpv4(_) => "static_nat.device_missing_ipv4"@,
                StaticNatError::DeviceMissingIpv6(_) => "static_nat.device_missing_ipv6"@,
                StaticNatError::InvalidTarget(_) => "static_nat.invalid_target"@,
                StaticNatError::PortConflict { .. } => "static_nat.port_conflict"@,
                StaticNatError::PortInDynamicRange { .. } => "static_nat.port_in_dynamic_range"@,
                StaticNatError::Internal(_) => "static_nat.internal"@,
            }),
    {
        match self {
            StaticNatError::NotFound(_) => "static_nat.not_found",
            StaticNatError::DeviceNotFound(_) => "static_nat.device_not_found",
            StaticNatError::DeviceMissingIpv4(_) => "static_nat.device_missing_ipv4",
            StaticNatError::DeviceMissingIpv6(_) => "static_nat.device_missing_ipv6",
            StaticNatError::InvalidTarget(_) => "static_nat.invalid_target",
            StaticNatError::PortConflict { .. } => "static_nat.port_conflict",
            StaticNatError::PortInDynamicRange { .. } => "static_nat.port_in_dynamic_range",
            StaticNatError::Internal(_) => "static_nat.internal",
        }
    }

    pub fn http_status_code(&self) -> (r: u16)
        ensures
            r == (match *self {
                StaticNatError::NotFound(_) => 404u16,
                StaticNatError::DeviceNotFound(_) => 404,
                StaticNatError::DeviceMissingIpv4(_) => 422,
                StaticNatError::DeviceMissingIpv6(_) => 422,
                StaticNatError::InvalidTarget(_) => 422,
                StaticNatError::PortConflict { .. } => 409,
                StaticNatError::PortInDynamicRange { .. } => 409,
                StaticNatError::Internal(_) => 500,
            }),
    {
        match self {
            StaticNatError::NotFound(_) | StaticNatError::DeviceNotFound(_) => 404,
            StaticNatError::DeviceMissingIpv4(_)
            | StaticNatError::DeviceMissingIpv6(_)
            | StaticNatError::InvalidTarget(_) => 422,
            StaticNatError::PortConflict { .. } | StaticNatError::PortInDynamicRange { .. } => 409,
            StaticNatError::Internal(_) => 500,
        }
    }
}

} // verus!

//! Devices that the operator has enrolled.
use vstd::prelude::*;
use crate::net::{Ipv4Addr, Ipv6Addr};
use crate::ids::ConfigId;

verus! {

/// What is known of an enrolled device.
#[derive(Debug)]
pub struct EnrolledDevice {
    pub id: ConfigId,
    pub iface_name: Option<String>,
    pub hostname: Option<String>,
    pub ipv4: Option<Ipv4Addr>,
    pub ipv6: Option<Ipv6Addr>,
}

} // verus!

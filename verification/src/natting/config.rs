//! The dynamic NAT service of an interface and its port ranges.
use core::ops::Range;
use vstd::prelude::*;
use crate::natting::error::NatServiceError;

verus! {

/// The ranges from which translated ports are taken.
#[derive(Debug)]
pub struct NatConfig {
    pub tcp_range: Range<u16>,
    pub udp_range: Range<u16>,
    pub icmp_in_range: Range<u16>,
}

#[derive(Debug)]
pub struct NatServiceConfig {
    pub iface_name: String,
    pub enable: bool,
    pub nat_config: NatConfig,
}

impl Clone for NatConfig {
    fn clone(&self) -> (r: Self)
        ensures
            r == *self,
    {
        NatConfig {
            tcp_range: Range { start: self.tcp_range.start, end: self.tcp_range.end },
            udp_range: Range { start: self.udp_range.start, end: self.udp_range.end },
            icmp_in_range: Range { start: self.icmp_in_range.start, end: self.icmp_in_range.end },
        }
    }
}

impl Clone for NatServiceConfig {
    fn clone(&self) -> (r: Self)
        ensures
            r == *self,
    {
        NatServiceConfig {
            iface_name: self.iface_name.clone(),
            enable: self.enable,
            nat_config: self.nat_config.clone(),
        }
    }
}

/// What is wrong with a range of ports.
pub enum RangeFault {
    StartZero(Seq<char>),
    Invalid(Seq<char>, u16, u16),
}

/// What is wrong with the range of the given name.
pub open spec fn range_fault(name: Seq<char>, range: Range<u16>) -> Option<RangeFault> {
    if range.start == 0 {
        Some(RangeFault::StartZero(name))
    } else if range.start >= range.end {
        Some(RangeFault::Invalid(name, range.start, range.end))
    } else {
        None
    }
}

/// Whether a check result reports the given fault, or none.
pub open spec fn reports(r: Result<(), NatServiceError>, fault: Option<RangeFault>) -> bool {
    match (r, fault) {
        (Ok(_), None) => true,
        (Err(NatServiceError::PortStartZero { name }), Some(RangeFault::StartZero(n))) => name@
            == n,
        (
            Err(NatServiceError::PortRangeInvalid { name, start, end }),
            Some(RangeFault::Invalid(n, s, e)),
        ) => name@ == n && start == s && end == e,
        _ => false,
    }
}

impl NatConfig {
    fn validate_range(name: &str, range: &Range<u16>) -> (r: Result<(), NatServiceError>)
        ensures
            reports(r, range_fault(name@, *range)),
    {
        if range.start == 0 {
            return Err(NatServiceError::PortStartZero { name: name.to_owned() });
        }
        if range.start >= range.end {
            return Err(
                NatServiceError::PortRangeInvalid {
                    name: name.to_owned(),
                    start: range.start,
                    end: range.end,
                },
            );
        }
        Ok(())
    }

    /// The first range that starts at zero or is empty.
    pub open spec fn fault(self) -> Option<RangeFault> {
        let tcp = range_fault("tcp_range"@, self.tcp_range);
        let udp = range_fault("udp_range"@, self.udp_range);
        if tcp is Some {
            tcp
        } else if udp is Some {
            udp
        } else {
            range_fault("icmp_in_range"@, self.icmp_in_range)
        }
    }

    pub fn validate(&self) -> (r: Result<(), NatServiceError>)
        ensures
            reports(r, self.fault()),
    {
        let tcp = Self::validate_range("tcp_range", &self.tcp_range);
        if tcp.is_err() {
            return tcp;
        }
        let udp = Self::validate_range("udp_range", &self.udp_range);
        if udp.is_err() {
            return udp;
        }
        Self::validate_range("icmp_in_range", &self.icmp_in_range)
    }
}

impl Default for NatConfig {
    fn default() -> (r: Self)
        ensures
            r.tcp_range == (Range { start: 32768u16, end: 65535u16 }),
            r.udp_range == (Range { start: 32768u16, end: 65535u16 }),
            r.icmp_in_range == (Range { start: 32768u16, end: 65535u16 }),
    {
        NatConfig {
            tcp_range: Range { start: 32768, end: 65535 },
            udp_range: Range { start: 32768, end: 65535 },
            icmp_in_range: Range { start: 32768, end: 65535 },
        }
    }
}

/// A configuration is accepted exactly when every range starts above zero and
/// is not empty.
pub proof fn law_accepted_ranges(c: NatConfig)
    ensures
        c.fault() is None <==> {
            &&& 0 < c.tcp_range.start < c.tcp_range.end
            &&& 0 < c.udp_range.start < c.udp_range.end
            &&& 0 < c.icmp_in_range.start < c.icmp_in_range.end
        },
{
}

} // verus!

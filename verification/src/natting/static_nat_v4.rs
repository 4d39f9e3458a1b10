//! Static mappings for IPv4.
use vstd::prelude::*;
use crate::error::{invalid_because, verdict_of, ServiceConfigError, Verdict};
use crate::ids::{is_nil_id, ConfigId};
use crate::natting::static_nat::{
    lemma_pairs_clean, lemma_protocols_clean, pairs_verdict, protocols_verdict, validate_pairs,
    validate_protocols, StaticMapPair,
};
use crate::net::Ipv4Addr;

verus! {

/// Where an IPv4 mapping leads.
#[derive(Debug, Clone, Copy, PartialEq, Eq)]
pub enum StaticNatV4Target {
    Address { ipv4: Ipv4Addr },
    Local,
    Device { device_id: ConfigId },
}

#[derive(Debug)]
pub struct StaticNatMappingV4Config {
    pub id: ConfigId,
    pub enable: bool,
    pub remark: String,
    pub wan_iface_name: Option<String>,
    pub mapping_pair_ports: Vec<StaticMapPair>,
    pub lan_target: Option<StaticNatV4Target>,
    pub l4_protocols: Vec<u8>,
}

/// An IPv4 mapping with its target resolved.
#[derive(Debug, PartialEq, Eq)]
pub struct RuntimeStaticNatMappingV4Config {
    pub mapping_pair_ports: Vec<StaticMapPair>,
    pub lan_ipv4: Ipv4Addr,
    pub l4_protocols: Vec<u8>,
}

impl StaticNatV4Target {
    pub fn address(ipv4: Ipv4Addr) -> (r: Self)
        ensures
            r == (StaticNatV4Target::Address { ipv4 }),
    {
        StaticNatV4Target::Address { ipv4 }
    }
}

/// The address that a target names by itself.
pub open spec fn named_ipv4(target: Option<StaticNatV4Target>) -> Option<Ipv4Addr> {
    match target {
        Some(StaticNatV4Target::Address { ipv4 }) => Some(ipv4),
        Some(StaticNatV4Target::Local) => Some(Ipv4Addr { bits: 0 }),
        _ => None,
    }
}

/// The address column that is stored with a target.
pub fn address_from_target_v4(lan_target: Option<&StaticNatV4Target>) -> (r: Option<Ipv4Addr>)
    ensures
        r == named_ipv4(
            match lan_target {
                Some(t) => Some(*t),
                None => None,
            },
        ),
{
    match lan_target {
        Some(StaticNatV4Target::Address { ipv4 }) => Some(*ipv4),
        Some(StaticNatV4Target::Local) => Some(Ipv4Addr { bits: 0 }),
        Some(StaticNatV4Target::Device { .. }) | None => None,
    }
}

/// The target of a stored record: the stored one where it can be read, else
/// the address column.
pub fn target_v4_from_fields(stored: Option<StaticNatV4Target>, ipv4: Option<Ipv4Addr>) -> (r:
    Option<StaticNatV4Target>)
    ensures
        r == match (stored, ipv4) {
            (Some(t), _) => Some(t),
            (None, Some(ip)) => Some(StaticNatV4Target::Address { ipv4: ip }),
            (None, None) => None,
        },
{
    match (stored, ipv4) {
        (Some(t), _) => Some(t),
        (None, Some(ip)) => Some(StaticNatV4Target::address(ip)),
        (None, None) => None,
    }
}

impl StaticNatMappingV4Config {
    /// What is wrong with an enabled mapping's ports and target.
    pub open spec fn target_verdict(self) -> Verdict {
        if !self.enable {
            Verdict::Clean
        } else if self.mapping_pair_ports@.len() == 0 {
            Verdict::Fault("mapping_pair_ports must not be empty when enabled"@)
        } else {
            match self.lan_target {
                None => Verdict::Fault("enabled static NAT mapping must define a LAN target"@),
                Some(StaticNatV4Target::Device { device_id }) => if device_id == 0 {
                    Verdict::Fault("device target must select a valid enrolled device"@)
                } else {
                    Verdict::Clean
                },
                _ => Verdict::Clean,
            }
        }
    }

    /// The first thing wrong with the mapping.
    pub open spec fn verdict(self) -> Verdict {
        self.target_verdict().or_else(pairs_verdict(self.mapping_pair_ports@, 0)).or_else(
            protocols_verdict("l4_protocols"@, self.l4_protocols@, 0),
        )
    }

    pub fn validate(&self) -> (r: Result<(), ServiceConfigError>)
        ensures
            verdict_of(r) == self.verdict(),
    {
        if self.enable && self.mapping_pair_ports.len() == 0 {
            return invalid_because("mapping_pair_ports must not be empty when enabled");
        }
        if self.enable {
            match &self.lan_target {
                None => {
                    return invalid_because("enabled static NAT mapping must define a LAN target");
                },
                Some(StaticNatV4Target::Device { device_id }) => {
                    if is_nil_id(*device_id) {
                        return invalid_because("device target must select a valid enrolled device");
                    }
                },
                _ => {},
            }
        }
        let pairs = validate_pairs(&self.mapping_pair_ports);
        if pairs.is_err() {
            return pairs;
        }
        validate_protocols("l4_protocols", &self.l4_protocols)
    }
}

/// A mapping is accepted exactly when its ports are not zero, its protocols
/// are TCP or UDP, and, where it is enabled, it has ports and a target.
pub proof fn law_accepted_mappings_v4(c: StaticNatMappingV4Config)
    ensures
        c.verdict() is Clean <==> {
            &&& forall|k: int|
                0 <= k < c.mapping_pair_ports@.len() ==> (
                #[trigger] c.mapping_pair_ports@[k]).wan_port != 0
                    && c.mapping_pair_ports@[k].lan_port != 0
            &&& forall|k: int|
                0 <= k < c.l4_protocols@.len() ==> #[trigger] c.l4_protocols@[k] == 6
                    || c.l4_protocols@[k] == 17
            &&& c.enable ==> {
                &&& c.mapping_pair_ports@.len() > 0
                &&& c.lan_target is Some
                &&& c.lan_target->0 matches StaticNatV4Target::Device { device_id } ==> device_id
                    != 0
            }
        },
{
    lemma_pairs_clean(c.mapping_pair_ports@, 0);
    lemma_protocols_clean("l4_protocols"@, c.l4_protocols@, 0);
}

} // verus!

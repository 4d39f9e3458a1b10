//! Static mappings for IPv6.
use vstd::prelude::*;
use crate::error::{invalid, invalid_because, verdict_of, ServiceConfigError, Verdict};
use crate::ids::{is_nil_id, ConfigId};
use crate::natting::static_nat::{lemma_protocols_clean, protocols_verdict, validate_protocols};
use crate::net::Ipv6Addr;
use crate::text::{decimal, decimal_text};

verus! {

/// Where an IPv6 mapping leads.
#[derive(Debug, PartialEq, Eq)]
pub enum StaticNatV6Target {
    Address { ipv6: Ipv6Addr },
    Local,
    Device { device_ids: Vec<ConfigId> },
}

/// Which ports are opened.
#[derive(Debug, PartialEq, Eq)]
pub enum StaticNatV6PortConfig {
    All,
    Ports { ports: Vec<u16> },
}

#[derive(Debug)]
pub struct StaticNatMappingV6Config {
    pub id: ConfigId,
    pub enable: bool,
    pub remark: String,
    pub wan_iface_name: Option<String>,
    pub port_config: StaticNatV6PortConfig,
    pub lan_target: Option<StaticNatV6Target>,
    pub l4_protocols: Vec<u8>,
}

/// An IPv6 mapping with one of its targets resolved.
#[derive(Debug, PartialEq, Eq)]
pub struct RuntimeStaticNatMappingV6Config {
    pub port_config: StaticNatV6PortConfig,
    pub lan_ipv6: Ipv6Addr,
    pub l4_protocols: Vec<u8>,
}

impl View for StaticNatV6PortConfig {
    type V = Option<Seq<u16>>;

    /// The ports that are opened; `None` stands for all.
    open spec fn view(&self) -> Option<Seq<u16>> {
        match *self {
            StaticNatV6PortConfig::All => None,
            StaticNatV6PortConfig::Ports { ports } => Some(ports@),
        }
    }
}

impl Default for StaticNatV6PortConfig {
    fn default() -> (r: Self)
        ensures
            r@ == Some(Seq::<u16>::empty()),
    {
        StaticNatV6PortConfig::Ports { ports: Vec::new() }
    }
}

impl Clone for StaticNatV6PortConfig {
    fn clone(&self) -> (r: Self)
        ensures
            r@ == self@,
    {
        match self {
            StaticNatV6PortConfig::All => StaticNatV6PortConfig::All,
            StaticNatV6PortConfig::Ports { ports } => {
                let copy = ports.clone();
                assert(copy@ =~= ports@);
                StaticNatV6PortConfig::Ports { ports: copy }
            },
        }
    }
}

impl StaticNatV6Target {
    pub fn address(ipv6: Ipv6Addr) -> (r: Self)
        ensures
            r == (StaticNatV6Target::Address { ipv6 }),
    {
        StaticNatV6Target::Address { ipv6 }
    }
}

/// The address that a target names by itself.
pub open spec fn named_ipv6(target: Option<&StaticNatV6Target>) -> Option<Ipv6Addr> {
    match target {
        Some(StaticNatV6Target::Address { ipv6 }) => Some(*ipv6),
        Some(StaticNatV6Target::Local) => Some(Ipv6Addr { bits: 0 }),
        _ => None,
    }
}

/// The address column that is stored with a target.
pub fn address_from_target_v6(lan_target: Option<&StaticNatV6Target>) -> (r: Option<Ipv6Addr>)
    ensures
        r == named_ipv6(lan_target),
{
    match lan_target {
        Some(StaticNatV6Target::Address { ipv6 }) => Some(*ipv6),
        Some(StaticNatV6Target::Local) => Some(Ipv6Addr { bits: 0 }),
        Some(StaticNatV6Target::Device { .. }) | None => None,
    }
}

/// The target of a stored record: the stored one where it can be read, else
/// the address column.
pub fn target_v6_from_fields(stored: Option<StaticNatV6Target>, ipv6: Option<Ipv6Addr>) -> (r:
    Option<StaticNatV6Target>)
    ensures
        r == match (stored, ipv6) {
            (Some(t), _) => Some(t),
            (None, Some(ip)) => Some(StaticNatV6Target::Address { ipv6: ip }),
            (None, None) => None,
        },
{
    match (stored, ipv6) {
        (Some(t), _) => Some(t),
        (None, Some(ip)) => Some(StaticNatV6Target::address(ip)),
        (None, None) => None,
    }
}

/// What is wrong with a list of devices as a target.
pub open spec fn devices_verdict(ids: Seq<ConfigId>) -> Verdict {
    if ids.len() == 0 {
        Verdict::Fault("device target must select at least one valid enrolled device"@)
    } else if ids.contains(0) {
        Verdict::Fault("device target must select a valid enrolled device"@)
    } else if !ids.no_duplicates() {
        Verdict::Fault("device target must not contain duplicate devices"@)
    } else {
        Verdict::Clean
    }
}

fn validate_devices(ids: &Vec<ConfigId>) -> (r: Result<(), ServiceConfigError>)
    ensures
        verdict_of(r) == devices_verdict(ids@),
{
    let n: usize = ids.len();
    if n == 0 {
        return invalid_because("device target must select at least one valid enrolled device");
    }
    for i in 0..n
        invariant
            n == ids@.len(),
            n > 0,
            forall|k: int| 0 <= k < i ==> ids@[k] != 0,
    {
        if is_nil_id(ids[i]) {
            assert(ids@.contains(0)) by {
                assert(ids@[i as int] == 0);
            }
            return invalid_because("device target must select a valid enrolled device");
        }
    }
    assert(!ids@.contains(0));
    for i in 0..n
        invariant
            n == ids@.len(),
            n > 0,
            !ids@.contains(0),
            forall|k: int, l: int| 0 <= k < l < i ==> ids@[k] != ids@[l],
    {
        for j in 0..i
            invariant
                i < n,
                n == ids@.len(),
                !ids@.contains(0),
                forall|k: int| 0 <= k < j ==> ids@[k] != ids@[i as int],
        {
            if ids[j] == ids[i] {
                return invalid_because("device target must not contain duplicate devices");
            }
        }
    }
    Ok(())
}

/// The first port from number `i` on that is zero or stands earlier too.
pub open spec fn open_ports_verdict(ports: Seq<u16>, i: int) -> Verdict
    decreases ports.len() - i,
{
    if i < 0 || i >= ports.len() {
        Verdict::Clean
    } else if ports[i] == 0 {
        Verdict::Fault("port_config ports["@ + decimal(i as nat) + "] must not be 0"@)
    } else if ports.take(i).contains(ports[i]) {
        Verdict::Fault(
            "port_config ports["@ + decimal(i as nat) + "] ("@ + decimal(ports[i] as nat)
                + ") is duplicated"@,
        )
    } else {
        open_ports_verdict(ports, i + 1)
    }
}

fn validate_open_ports(ports: &Vec<u16>) -> (r: Result<(), ServiceConfigError>)
    ensures
        verdict_of(r) == open_ports_verdict(ports@, 0),
{
    let n: usize = ports.len();
    for i in 0..n
        invariant
            n == ports@.len(),
            open_ports_verdict(ports@, 0) == open_ports_verdict(ports@, i as int),
    {
        if ports[i] == 0 {
            return invalid(
                "port_config ports[".to_owned().concat(&decimal_text(i as u128)).concat(
                    "] must not be 0",
                ),
            );
        }
        for j in 0..i
            invariant
                i < n,
                n == ports@.len(),
                ports@[i as int] != 0,
                open_ports_verdict(ports@, 0) == open_ports_verdict(ports@, i as int),
                forall|k: int| 0 <= k < j ==> ports@[k] != ports@[i as int],
        {
            if ports[j] == ports[i] {
                assert(ports@.take(i as int)[j as int] == ports@[i as int]);
                return invalid(
                    "port_config ports[".to_owned().concat(&decimal_text(i as u128)).concat(
                        "] (",
                    ).concat(&decimal_text(ports[i] as u128)).concat(") is duplicated"),
                );
            }
        }
        assert(!ports@.take(i as int).contains(ports@[i as int]));
    }
    Ok(())
}

impl StaticNatMappingV6Config {
    /// What is wrong with an enabled mapping's target.
    pub open spec fn target_verdict(self) -> Verdict {
        match self.lan_target {
            None => Verdict::Fault("enabled static NAT mapping must define a LAN target"@),
            Some(StaticNatV6Target::Device { device_ids }) => devices_verdict(device_ids@),
            _ => Verdict::Clean,
        }
    }

    /// What is wrong with an enabled mapping's ports.
    pub open spec fn ports_verdict(self) -> Verdict {
        match self.port_config {
            StaticNatV6PortConfig::Ports { ports } => if ports@.len() == 0 {
                Verdict::Fault("port_config ports list must not be empty when enabled"@)
            } else {
                open_ports_verdict(ports@, 0)
            },
            StaticNatV6PortConfig::All => if self.lan_target is Some
                && self.lan_target->0 is Local {
                Verdict::Fault("local target does not support opening all ports"@)
            } else {
                Verdict::Clean
            },
        }
    }

    /// The first thing wrong with the mapping.
    pub open spec fn verdict(self) -> Verdict {
        let enabled = if self.enable {
            self.target_verdict().or_else(self.ports_verdict())
        } else {
            Verdict::Clean
        };
        enabled.or_else(protocols_verdict("l4_protocols"@, self.l4_protocols@, 0))
    }

    fn validate_enabled(&self) -> (r: Result<(), ServiceConfigError>)
        ensures
            verdict_of(r) == self.target_verdict().or_else(self.ports_verdict()),
    {
        match &self.lan_target {
            None => {
                return invalid_because("enabled static NAT mapping must define a LAN target");
            },
            Some(StaticNatV6Target::Device { device_ids }) => {
                let devices = validate_devices(device_ids);
                if devices.is_err() {
                    return devices;
                }
            },
            _ => {},
        }
        match &self.port_config {
            StaticNatV6PortConfig::Ports { ports } => {
                if ports.len() == 0 {
                    return invalid_because("port_config ports list must not be empty when enabled");
                }
                validate_open_ports(ports)
            },
            StaticNatV6PortConfig::All => {
                if let Some(StaticNatV6Target::Local) = &self.lan_target {
                    return invalid_because("local target does not support opening all ports");
                }
                Ok(())
            },
        }
    }

    pub fn validate(&self) -> (r: Result<(), ServiceConfigError>)
        ensures
            verdict_of(r) == self.verdict(),
    {
        if self.enable {
            let enabled = self.validate_enabled();
            if enabled.is_err() {
                return enabled;
            }
        }
        validate_protocols("l4_protocols", &self.l4_protocols)
    }
}

proof fn lemma_open_ports_clean(ports: Seq<u16>, i: int)
    requires
        0 <= i <= ports.len(),
    ensures
        open_ports_verdict(ports, i) is Clean <==> forall|k: int|
            i <= k < ports.len() ==> #[trigger] ports[k] != 0 && !ports.take(k).contains(ports[k]),
        !(open_ports_verdict(ports, i) is Overflow),
    decreases ports.len() - i,
{
    if i < ports.len() {
        lemma_open_ports_clean(ports, i + 1);
    }
}

/// A mapping is accepted exactly when its protocols are TCP or UDP and, where
/// it is enabled, its target is an address, the router (for listed ports
/// only) or a list of distinct valid devices, and its listed ports are
/// distinct, not zero and not none.
pub proof fn law_accepted_mappings_v6(c: StaticNatMappingV6Config)
    ensures
        c.verdict() is Clean <==> {
            &&& forall|k: int|
                0 <= k < c.l4_protocols@.len() ==> #[trigger] c.l4_protocols@[k] == 6
                    || c.l4_protocols@[k] == 17
            &&& c.enable ==> {
                &&& c.lan_target is Some
                &&& c.lan_target->0 matches StaticNatV6Target::Device { device_ids } ==> {
                    &&& device_ids@.len() > 0
                    &&& !device_ids@.contains(0)
                    &&& device_ids@.no_duplicates()
                }
                &&& c.port_config@ is None ==> !(c.lan_target->0 is Local)
                &&& c.port_config@ matches Some(ports) ==> {
                    &&& ports.len() > 0
                    &&& !ports.contains(0)
                    &&& ports.no_duplicates()
                }
            }
        },
{
    lemma_protocols_clean("l4_protocols"@, c.l4_protocols@, 0);
    if let StaticNatV6PortConfig::Ports { ports: listed } = c.port_config {
        let ports = listed@;
        lemma_open_ports_clean(ports, 0);
        if open_ports_verdict(ports, 0) is Clean {
            assert forall|k: int, l: int| 0 <= k < l < ports.len() implies ports[k] != ports[l] by {
                if ports[k] == ports[l] {
                    assert(ports.take(l)[k] == ports[l]);
                }
            }
        }
        if !ports.contains(0) && ports.no_duplicates() {
            assert forall|k: int| 0 <= k < ports.len() implies #[trigger] ports[k] != 0
                && !ports.take(k).contains(ports[k]) by {
                if ports.take(k).contains(ports[k]) {
                    let l = choose|l: int| 0 <= l < k && ports.take(k)[l] == ports[k];
                    assert(ports[l] == ports[k]);
                }
            }
        }
    }
}

} // verus!

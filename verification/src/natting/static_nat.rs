//! Static mappings for both address families in one record.
use vstd::prelude::*;
use crate::error::{invalid, invalid_because, verdict_of, ServiceConfigError, Verdict};
use crate::ids::{is_nil_id, ConfigId};
use crate::net::{IpAddr, Ipv4Addr, Ipv6Addr};
use crate::text::{decimal, decimal_text};

verus! {

/// The answer to whether a port is free for a static mapping.
#[derive(Debug, Clone)]
pub struct PortConflictCheckResponse {
    pub conflict: bool,
    pub port: Option<u16>,
    pub protocol: Option<u8>,
    pub iface_name: Option<String>,
    pub start: Option<u16>,
    pub end: Option<u16>,
}

/// An outer port and the inner port that it leads to.
#[derive(Debug, Clone, Copy, PartialEq, Eq, Structural)]
pub struct StaticMapPair {
    pub wan_port: u16,
    pub lan_port: u16,
}

/// Where a static mapping leads.
#[derive(Debug, Clone, Copy, PartialEq, Eq)]
pub enum StaticNatTarget {
    Address { ipv4: Option<Ipv4Addr>, ipv6: Option<Ipv6Addr> },
    Local,
    Device { device_id: ConfigId },
}

#[derive(Debug)]
pub struct StaticNatMappingConfig {
    pub id: ConfigId,
    pub enable: bool,
    pub remark: String,
    pub wan_iface_name: Option<String>,
    pub mapping_pair_ports: Vec<StaticMapPair>,
    pub lan_target: Option<StaticNatTarget>,
    pub ipv4_l4_protocol: Vec<u8>,
    pub ipv6_l4_protocol: Vec<u8>,
}

/// A static mapping with its target resolved to addresses.
#[derive(Debug, PartialEq, Eq)]
pub struct RuntimeStaticNatMappingConfig {
    pub mapping_pair_ports: Vec<StaticMapPair>,
    pub lan_ipv4: Option<Ipv4Addr>,
    pub lan_ipv6: Option<Ipv6Addr>,
    pub ipv4_l4_protocol: Vec<u8>,
    pub ipv6_l4_protocol: Vec<u8>,
}

/// One port of one protocol mapped to one address.
#[derive(Debug, Clone, Copy, PartialEq, Eq, Hash, Structural)]
pub struct StaticNatMappingItem {
    pub wan_port: u16,
    pub lan_port: u16,
    pub lan_ip: IpAddr,
    pub l4_protocol: u8,
}

/// The first pair from number `i` on with a port that is zero.
pub open spec fn pairs_verdict(pairs: Seq<StaticMapPair>, i: int) -> Verdict
    decreases pairs.len() - i,
{
    if i < 0 || i >= pairs.len() {
        Verdict::Clean
    } else if pairs[i].wan_port == 0 {
        Verdict::Fault("mapping_pair_ports["@ + decimal(i as nat) + "].wan_port must not be 0"@)
    } else if pairs[i].lan_port == 0 {
        Verdict::Fault("mapping_pair_ports["@ + decimal(i as nat) + "].lan_port must not be 0"@)
    } else {
        pairs_verdict(pairs, i + 1)
    }
}

pub(crate) fn validate_pairs(pairs: &Vec<StaticMapPair>) -> (r: Result<(), ServiceConfigError>)
    ensures
        verdict_of(r) == pairs_verdict(pairs@, 0),
{
    let n: usize = pairs.len();
    for i in 0..n
        invariant
            n == pairs@.len(),
            pairs_verdict(pairs@, 0) == pairs_verdict(pairs@, i as int),
    {
        if pairs[i].wan_port == 0 {
            return invalid(
                "mapping_pair_ports[".to_owned().concat(&decimal_text(i as u128)).concat(
                    "].wan_port must not be 0",
                ),
            );
        }
        if pairs[i].lan_port == 0 {
            return invalid(
                "mapping_pair_ports[".to_owned().concat(&decimal_text(i as u128)).concat(
                    "].lan_port must not be 0",
                ),
            );
        }
    }
    Ok(())
}

/// The first protocol from number `i` on that is neither TCP nor UDP.
pub open spec fn protocols_verdict(field: Seq<char>, protocols: Seq<u8>, i: int) -> Verdict
    decreases protocols.len() - i,
{
    if i < 0 || i >= protocols.len() {
        Verdict::Clean
    } else if protocols[i] != 6 && protocols[i] != 17 {
        Verdict::Fault(
            field + "["@ + decimal(i as nat) + "] ("@ + decimal(protocols[i] as nat)
                + ") must be 6 (TCP) or 17 (UDP)"@,
        )
    } else {
        protocols_verdict(field, protocols, i + 1)
    }
}

pub(crate) fn validate_protocols(field: &str, protocols: &Vec<u8>) -> (r: Result<
    (),
    ServiceConfigError,
>)
    ensures
        verdict_of(r) == protocols_verdict(field@, protocols@, 0),
{
    let n: usize = protocols.len();
    for i in 0..n
        invariant
            n == protocols@.len(),
            protocols_verdict(field@, protocols@, 0) == protocols_verdict(
                field@,
                protocols@,
                i as int,
            ),
    {
        if protocols[i] != 6 && protocols[i] != 17 {
            return invalid(
                field.to_owned().concat("[").concat(&decimal_text(i as u128)).concat("] (").concat(
                    &decimal_text(protocols[i] as u128),
                ).concat(") must be 6 (TCP) or 17 (UDP)"),
            );
        }
    }
    Ok(())
}

impl StaticNatTarget {
    pub fn address(ipv4: Option<Ipv4Addr>, ipv6: Option<Ipv6Addr>) -> (r: Self)
        ensures
            r == (StaticNatTarget::Address { ipv4, ipv6 }),
    {
        StaticNatTarget::Address { ipv4, ipv6 }
    }

    /// Whether the target may stand behind an IPv4 mapping.
    pub open spec fn takes_ipv4(self) -> bool {
        match self {
            StaticNatTarget::Address { ipv4, .. } => ipv4 is Some,
            _ => true,
        }
    }

    /// Whether the target may stand behind an IPv6 mapping.
    pub open spec fn takes_ipv6(self) -> bool {
        match self {
            StaticNatTarget::Address { ipv6, .. } => ipv6 is Some,
            _ => true,
        }
    }

    fn supports_ipv4_config(&self) -> (r: bool)
        ensures
            r == self.takes_ipv4(),
    {
        match self {
            StaticNatTarget::Address { ipv4, .. } => ipv4.is_some(),
            StaticNatTarget::Local | StaticNatTarget::Device { .. } => true,
        }
    }

    fn supports_ipv6_config(&self) -> (r: bool)
        ensures
            r == self.takes_ipv6(),
    {
        match self {
            StaticNatTarget::Address { ipv6, .. } => ipv6.is_some(),
            StaticNatTarget::Local | StaticNatTarget::Device { .. } => true,
        }
    }
}

/// The addresses that a target names by itself: the unspecified ones stand
/// for the router, and a device names none.
pub open spec fn named_addresses(target: Option<StaticNatTarget>) -> (
    Option<Ipv4Addr>,
    Option<Ipv6Addr>,
) {
    match target {
        Some(StaticNatTarget::Address { ipv4, ipv6 }) => (ipv4, ipv6),
        Some(StaticNatTarget::Local) => (
            Some(Ipv4Addr { bits: 0 }),
            Some(Ipv6Addr { bits: 0 }),
        ),
        _ => (None, None),
    }
}

/// The address columns that are stored with a target.
pub fn address_fields_from_target(lan_target: Option<&StaticNatTarget>) -> (r: (
    Option<Ipv4Addr>,
    Option<Ipv6Addr>,
))
    ensures
        r == named_addresses(
            match lan_target {
                Some(t) => Some(*t),
                None => None,
            },
        ),
{
    match lan_target {
        Some(StaticNatTarget::Address { ipv4, ipv6 }) => (*ipv4, *ipv6),
        Some(StaticNatTarget::Local) => (Some(Ipv4Addr { bits: 0 }), Some(Ipv6Addr { bits: 0 })),
        Some(StaticNatTarget::Device { .. }) | None => (None, None),
    }
}

/// The target of a stored record: the stored one where it can be read, else
/// the address columns.
pub fn target_from_fields(
    stored: Option<StaticNatTarget>,
    ipv4: Option<Ipv4Addr>,
    ipv6: Option<Ipv6Addr>,
) -> (r: StaticNatTarget)
    ensures
        r == match stored {
            Some(t) => t,
            None => StaticNatTarget::Address { ipv4, ipv6 },
        },
{
    match stored {
        Some(t) => t,
        None => StaticNatTarget::address(ipv4, ipv6),
    }
}

impl StaticNatMappingConfig {
    /// What is wrong with the target of an enabled mapping.
    pub open spec fn target_verdict(self) -> Verdict {
        if !self.enable {
            Verdict::Clean
        } else if self.mapping_pair_ports@.len() == 0 {
            Verdict::Fault("mapping_pair_ports must not be empty when enabled"@)
        } else {
            match self.lan_target {
                None => Verdict::Fault("enabled static NAT mapping must define a LAN target"@),
                Some(StaticNatTarget::Device { device_id }) => if device_id == 0 {
                    Verdict::Fault("device target must select a valid enrolled device"@)
                } else {
                    Verdict::Clean
                },
                _ => Verdict::Clean,
            }
        }
    }

    /// What an enabled mapping's target cannot take.
    pub open spec fn family_verdict(self) -> Verdict {
        if !self.enable || self.lan_target is None {
            Verdict::Clean
        } else if self.ipv4_l4_protocol@.len() > 0 && !self.lan_target->0.takes_ipv4() {
            Verdict::Fault(
                "enabled IPv4 static NAT mapping requires an IPv4-capable target (specify an IPv4 address or use Local/Device target)"@,
            )
        } else if self.ipv6_l4_protocol@.len() > 0 && !self.lan_target->0.takes_ipv6() {
            Verdict::Fault(
                "enabled IPv6 static NAT mapping requires an IPv6-capable target (specify an IPv6 address or use Local/Device target)"@,
            )
        } else {
            Verdict::Clean
        }
    }

    /// The first thing wrong with the mapping.
    pub open spec fn verdict(self) -> Verdict {
        self.target_verdict().or_else(pairs_verdict(self.mapping_pair_ports@, 0)).or_else(
            protocols_verdict("ipv4_l4_protocol"@, self.ipv4_l4_protocol@, 0),
        ).or_else(protocols_verdict("ipv6_l4_protocol"@, self.ipv6_l4_protocol@, 0)).or_else(
            self.family_verdict(),
        )
    }

    pub fn validate(&self) -> (r: Result<(), ServiceConfigError>)
        ensures
            verdict_of(r) == self.verdict(),
    {
        if self.enable && self.mapping_pair_ports.len() == 0 {
            return invalid_because("mapping_pair_ports must not be empty when enabled");
        }
        if self.enable {
            match &self.lan_target {
                None => {
                    return invalid_because("enabled static NAT mapping must define a LAN target");
                },
                Some(StaticNatTarget::Device { device_id }) => {
                    if is_nil_id(*device_id) {
                        return invalid_because("device target must select a valid enrolled device");
                    }
                },
                _ => {},
            }
        }
        let pairs = validate_pairs(&self.mapping_pair_ports);
        if pairs.is_err() {
            return pairs;
        }
        let ipv4 = validate_protocols("ipv4_l4_protocol", &self.ipv4_l4_protocol);
        if ipv4.is_err() {
            return ipv4;
        }
        let ipv6 = validate_protocols("ipv6_l4_protocol", &self.ipv6_l4_protocol);
        if ipv6.is_err() {
            return ipv6;
        }
        if self.enable {
            if let Some(target) = &self.lan_target {
                if self.ipv4_l4_protocol.len() > 0 && !target.supports_ipv4_config() {
                    return invalid_because(
                        "enabled IPv4 static NAT mapping requires an IPv4-capable target (specify an IPv4 address or use Local/Device target)",
                    );
                }
                if self.ipv6_l4_protocol.len() > 0 && !target.supports_ipv6_config() {
                    return invalid_because(
                        "enabled IPv6 static NAT mapping requires an IPv6-capable target (specify an IPv6 address or use Local/Device target)",
                    );
                }
            }
        }
        Ok(())
    }

    pub fn convert_to_item(&self) -> (r: Vec<StaticNatMappingItem>)
        ensures
            r@ == mapping_items(
                self.mapping_pair_ports@,
                named_addresses(self.lan_target),
                self.ipv4_l4_protocol@,
                self.ipv6_l4_protocol@,
            ),
    {
        let (lan_ipv4, lan_ipv6) = address_fields_from_target(self.lan_target.as_ref());
        items_of(
            &self.mapping_pair_ports,
            lan_ipv4,
            lan_ipv6,
            &self.ipv4_l4_protocol,
            &self.ipv6_l4_protocol,
        )
    }
}

impl RuntimeStaticNatMappingConfig {
    pub fn convert_to_item(&self) -> (r: Vec<StaticNatMappingItem>)
        ensures
            r@ == mapping_items(
                self.mapping_pair_ports@,
                (self.lan_ipv4, self.lan_ipv6),
                self.ipv4_l4_protocol@,
                self.ipv6_l4_protocol@,
            ),
    {
        items_of(
            &self.mapping_pair_ports,
            self.lan_ipv4,
            self.lan_ipv6,
            &self.ipv4_l4_protocol,
            &self.ipv6_l4_protocol,
        )
    }
}

/// The items of one protocol: each pair, in order.
pub open spec fn items_of_protocol(
    pairs: Seq<StaticMapPair>,
    lan_ip: IpAddr,
    l4_protocol: u8,
) -> Seq<StaticNatMappingItem> {
    pairs.map_values(
        |p: StaticMapPair|
            StaticNatMappingItem {
                wan_port: p.wan_port,
                lan_port: p.lan_port,
                lan_ip,
                l4_protocol,
            },
    )
}

/// The items of several protocols, protocol by protocol.
pub open spec fn items_of_protocols(
    pairs: Seq<StaticMapPair>,
    lan_ip: IpAddr,
    protocols: Seq<u8>,
) -> Seq<StaticNatMappingItem>
    decreases protocols.len(),
{
    if protocols.len() == 0 {
        Seq::empty()
    } else {
        items_of_protocols(pairs, lan_ip, protocols.drop_last()) + items_of_protocol(
            pairs,
            lan_ip,
            protocols.last(),
        )
    }
}

/// Every item of a mapping: those of IPv4 before those of IPv6, each family
/// only where it has an address.
pub open spec fn mapping_items(
    pairs: Seq<StaticMapPair>,
    addresses: (Option<Ipv4Addr>, Option<Ipv6Addr>),
    ipv4_protocols: Seq<u8>,
    ipv6_protocols: Seq<u8>,
) -> Seq<StaticNatMappingItem> {
    let v4 = match addresses.0 {
        Some(ip) => items_of_protocols(pairs, IpAddr::V4(ip), ipv4_protocols),
        None => Seq::empty(),
    };
    let v6 = match addresses.1 {
        Some(ip) => items_of_protocols(pairs, IpAddr::V6(ip), ipv6_protocols),
        None => Seq::empty(),
    };
    v4 + v6
}

fn push_items(
    result: &mut Vec<StaticNatMappingItem>,
    pairs: &Vec<StaticMapPair>,
    lan_ip: IpAddr,
    protocols: &Vec<u8>,
)
    ensures
        final(result)@ == old(result)@ + items_of_protocols(pairs@, lan_ip, protocols@),
{
    let n: usize = protocols.len();
    let m: usize = pairs.len();
    let ghost start = result@;
    assert(protocols@.take(0) =~= Seq::empty());
    assert(start + Seq::<StaticNatMappingItem>::empty() =~= start);
    for i in 0..n
        invariant
            n == protocols@.len(),
            m == pairs@.len(),
            result@ == start + items_of_protocols(pairs@, lan_ip, protocols@.take(i as int)),
    {
        let l4_protocol: u8 = protocols[i];
        let ghost before = result@;
        let ghost whole = items_of_protocol(pairs@, lan_ip, l4_protocol);
        assert(before + whole.take(0) =~= before);
        for j in 0..m
            invariant
                m == pairs@.len(),
                whole == items_of_protocol(pairs@, lan_ip, l4_protocol),
                result@ == before + whole.take(j as int),
        {
            let pair = &pairs[j];
            result.push(
                StaticNatMappingItem {
                    wan_port: pair.wan_port,
                    lan_port: pair.lan_port,
                    lan_ip,
                    l4_protocol,
                },
            );
            assert(result@ =~= before + whole.take(j + 1));
        }
        assert(whole.take(m as int) =~= whole);
        assert(protocols@.take(i + 1).drop_last() =~= protocols@.take(i as int));
        assert(result@ =~= start + items_of_protocols(pairs@, lan_ip, protocols@.take(i + 1)));
    }
    assert(protocols@.take(n as int) =~= protocols@);
}

fn items_of(
    pairs: &Vec<StaticMapPair>,
    lan_ipv4: Option<Ipv4Addr>,
    lan_ipv6: Option<Ipv6Addr>,
    ipv4_protocols: &Vec<u8>,
    ipv6_protocols: &Vec<u8>,
) -> (r: Vec<StaticNatMappingItem>)
    ensures
        r@ == mapping_items(pairs@, (lan_ipv4, lan_ipv6), ipv4_protocols@, ipv6_protocols@),
{
    let mut result: Vec<StaticNatMappingItem> = Vec::new();
    if let Some(ipv4) = lan_ipv4 {
        push_items(&mut result, pairs, IpAddr::V4(ipv4), ipv4_protocols);
    }
    if let Some(ipv6) = lan_ipv6 {
        push_items(&mut result, pairs, IpAddr::V6(ipv6), ipv6_protocols);
    }
    assert(result@ =~= mapping_items(
        pairs@,
        (lan_ipv4, lan_ipv6),
        ipv4_protocols@,
        ipv6_protocols@,
    ));
    result
}

pub proof fn lemma_pairs_clean(pairs: Seq<StaticMapPair>, i: int)
    requires
        0 <= i,
    ensures
        pairs_verdict(pairs, i) is Clean <==> forall|k: int|
            i <= k < pairs.len() ==> (#[trigger] pairs[k]).wan_port != 0 && pairs[k].lan_port != 0,
        !(pairs_verdict(pairs, i) is Overflow),
    decreases pairs.len() - i,
{
    if i < pairs.len() {
        lemma_pairs_clean(pairs, i + 1);
    }
}

pub proof fn lemma_protocols_clean(field: Seq<char>, protocols: Seq<u8>, i: int)
    requires
        0 <= i,
    ensures
        protocols_verdict(field, protocols, i) is Clean <==> forall|k: int|
            i <= k < protocols.len() ==> #[trigger] protocols[k] == 6 || protocols[k] == 17,
        !(protocols_verdict(field, protocols, i) is Overflow),
    decreases protocols.len() - i,
{
    if i < protocols.len() {
        lemma_protocols_clean(field, protocols, i + 1);
    }
}

/// A mapping is accepted exactly when its ports are not zero, its protocols
/// are TCP or UDP, and, where it is enabled, it has ports and a target that
/// takes each family it names a protocol for.
pub proof fn law_accepted_mappings(c: StaticNatMappingConfig)
    ensures
        c.verdict() is Clean <==> {
            &&& forall|k: int|
                0 <= k < c.mapping_pair_ports@.len() ==> (
                #[trigger] c.mapping_pair_ports@[k]).wan_port != 0
                    && c.mapping_pair_ports@[k].lan_port != 0
            &&& forall|k: int|
                0 <= k < c.ipv4_l4_protocol@.len() ==> #[trigger] c.ipv4_l4_protocol@[k] == 6
                    || c.ipv4_l4_protocol@[k] == 17
            &&& forall|k: int|
                0 <= k < c.ipv6_l4_protocol@.len() ==> #[trigger] c.ipv6_l4_protocol@[k] == 6
                    || c.ipv6_l4_protocol@[k] == 17
            &&& c.enable ==> {
                &&& c.mapping_pair_ports@.len() > 0
                &&& c.lan_target is Some
                &&& c.lan_target->0 matches StaticNatTarget::Device { device_id } ==> device_id != 0
                &&& c.ipv4_l4_protocol@.len() > 0 ==> c.lan_target->0.takes_ipv4()
                &&& c.ipv6_l4_protocol@.len() > 0 ==> c.lan_target->0.takes_ipv6()
            }
        },
{
    lemma_pairs_clean(c.mapping_pair_ports@, 0);
    lemma_protocols_clean("ipv4_l4_protocol"@, c.ipv4_l4_protocol@, 0);
    lemma_protocols_clean("ipv6_l4_protocol"@, c.ipv6_l4_protocol@, 0);
}

/// Every pair of a mapping is an item for each protocol of a family that the
/// mapping has an address of, with the ports of the pair and that address.
pub proof fn law_items_of_a_mapping(
    pairs: Seq<StaticMapPair>,
    addresses: (Option<Ipv4Addr>, Option<Ipv6Addr>),
    ipv4_protocols: Seq<u8>,
    ipv6_protocols: Seq<u8>,
    j: int,
    protocol: u8,
)
    requires
        0 <= j < pairs.len(),
    ensures
        ({
            let items = mapping_items(pairs, addresses, ipv4_protocols, ipv6_protocols);
            &&& addresses.0 matches Some(ip) ==> ipv4_protocols.contains(protocol)
                ==> items.contains(
                StaticNatMappingItem {
                    wan_port: pairs[j].wan_port,
                    lan_port: pairs[j].lan_port,
                    lan_ip: IpAddr::V4(ip),
                    l4_protocol: protocol,
                },
            )
            &&& addresses.1 matches Some(ip) ==> ipv6_protocols.contains(protocol)
                ==> items.contains(
                StaticNatMappingItem {
                    wan_port: pairs[j].wan_port,
                    lan_port: pairs[j].lan_port,
                    lan_ip: IpAddr::V6(ip),
                    l4_protocol: protocol,
                },
            )
        }),
{
    let items = mapping_items(pairs, addresses, ipv4_protocols, ipv6_protocols);
    let v4 = match addresses.0 {
        Some(ip) => items_of_protocols(pairs, IpAddr::V4(ip), ipv4_protocols),
        None => Seq::empty(),
    };
    if let Some(ip) = addresses.0 {
        if ipv4_protocols.contains(protocol) {
            let i = lemma_item_of_pair(pairs, IpAddr::V4(ip), ipv4_protocols, j, protocol);
            assert(items[i] == v4[i]);
        }
    }
    if let Some(ip) = addresses.1 {
        if ipv6_protocols.contains(protocol) {
            let i = lemma_item_of_pair(pairs, IpAddr::V6(ip), ipv6_protocols, j, protocol);
            assert(items[v4.len() + i] == items_of_protocols(
                pairs,
                IpAddr::V6(ip),
                ipv6_protocols,
            )[i]);
        }
    }
}

proof fn lemma_item_of_pair(
    pairs: Seq<StaticMapPair>,
    lan_ip: IpAddr,
    protocols: Seq<u8>,
    j: int,
    protocol: u8,
) -> (i: int)
    requires
        0 <= j < pairs.len(),
        protocols.contains(protocol),
    ensures
        0 <= i < items_of_protocols(pairs, lan_ip, protocols).len(),
        items_of_protocols(pairs, lan_ip, protocols)[i] == (StaticNatMappingItem {
            wan_port: pairs[j].wan_port,
            lan_port: pairs[j].lan_port,
            lan_ip,
            l4_protocol: protocol,
        }),
    decreases protocols.len(),
{
    let less = protocols.drop_last();
    let front = items_of_protocols(pairs, lan_ip, less);
    if protocols.last() == protocol {
        front.len() + j
    } else {
        let k = choose|k: int| 0 <= k < protocols.len() && protocols[k] == protocol;
        assert(less[k] == protocol);
        let i = lemma_item_of_pair(pairs, lan_ip, less, j, protocol);
        assert(items_of_protocols(pairs, lan_ip, protocols)[i] == front[i]);
        i
    }
}

/// Every item is that of a pair of the mapping, for a protocol of its family
/// and with its address of that family.
pub proof fn law_items_come_from_the_mapping(
    pairs: Seq<StaticMapPair>,
    addresses: (Option<Ipv4Addr>, Option<Ipv6Addr>),
    ipv4_protocols: Seq<u8>,
    ipv6_protocols: Seq<u8>,
    i: int,
)
    requires
        0 <= i < mapping_items(pairs, addresses, ipv4_protocols, ipv6_protocols).len(),
    ensures
        ({
            let item = mapping_items(pairs, addresses, ipv4_protocols, ipv6_protocols)[i];
            &&& pairs.contains(StaticMapPair { wan_port: item.wan_port, lan_port: item.lan_port })
            &&& match item.lan_ip {
                IpAddr::V4(ip) => addresses.0 == Some(ip) && ipv4_protocols.contains(
                    item.l4_protocol,
                ),
                IpAddr::V6(ip) => addresses.1 == Some(ip) && ipv6_protocols.contains(
                    item.l4_protocol,
                ),
            }
        }),
{
    let v4 = match addresses.0 {
        Some(ip) => items_of_protocols(pairs, IpAddr::V4(ip), ipv4_protocols),
        None => Seq::empty(),
    };
    if i < v4.len() {
        lemma_pair_of_item(pairs, IpAddr::V4(addresses.0->0), ipv4_protocols, i);
    } else {
        lemma_pair_of_item(pairs, IpAddr::V6(addresses.1->0), ipv6_protocols, i - v4.len());
    }
}

proof fn lemma_pair_of_item(pairs: Seq<StaticMapPair>, lan_ip: IpAddr, protocols: Seq<u8>, i: int)
    requires
        0 <= i < items_of_protocols(pairs, lan_ip, protocols).len(),
    ensures
        ({
            let item = items_of_protocols(pairs, lan_ip, protocols)[i];
            &&& pairs.contains(StaticMapPair { wan_port: item.wan_port, lan_port: item.lan_port })
            &&& item.lan_ip == lan_ip
            &&& protocols.contains(item.l4_protocol)
        }),
    decreases protocols.len(),
{
    let less = protocols.drop_last();
    let front = items_of_protocols(pairs, lan_ip, less);
    let item = items_of_protocols(pairs, lan_ip, protocols)[i];
    if i < front.len() {
        lemma_pair_of_item(pairs, lan_ip, less, i);
        let k = choose|k: int| 0 <= k < less.len() && less[k] == item.l4_protocol;
        assert(protocols[k] == item.l4_protocol);
    } else {
        let at = i - front.len();
        assert(item == items_of_protocol(pairs, lan_ip, protocols.last())[at]);
        assert(pairs[at] == (StaticMapPair { wan_port: item.wan_port, lan_port: item.lan_port }));
        assert(protocols[protocols.len() - 1] == item.l4_protocol);
    }
}

/// A target takes a family where it names an address of it; the router and
/// devices take both. What is stored with a target is what it names: nothing
/// for a device.
pub proof fn law_families_of_a_target(
    ipv4: Option<Ipv4Addr>,
    ipv6: Option<Ipv6Addr>,
    device_id: ConfigId,
)
    ensures
        ({
            let address = StaticNatTarget::Address { ipv4, ipv6 };
            let device = StaticNatTarget::Device { device_id };
            &&& address.takes_ipv4() <==> ipv4 is Some
            &&& address.takes_ipv6() <==> ipv6 is Some
            &&& device.takes_ipv4() && device.takes_ipv6()
            &&& StaticNatTarget::Local.takes_ipv4() && StaticNatTarget::Local.takes_ipv6()
            &&& named_addresses(Some(address)) == (ipv4, ipv6)
            &&& named_addresses(Some(StaticNatTarget::Local)) == (
                Some(Ipv4Addr { bits: 0 }),
                Some(Ipv6Addr { bits: 0 }),
            )
            &&& named_addresses(Some(device)) == (None::<Ipv4Addr>, None::<Ipv6Addr>)
            &&& named_addresses(None) == (None::<Ipv4Addr>, None::<Ipv6Addr>)
        }),
{
}

} // verus!

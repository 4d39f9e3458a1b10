//! The entries that the data path looks up: for each static mapping one for
//! packets that come in and one for packets that go out.
use vstd::prelude::*;
use crate::entry_map::{EntryMap, PlainKey};
use crate::natting::static_nat::StaticMapPair;
use crate::natting::static_nat_v4::RuntimeStaticNatMappingV4Config;
use crate::natting::static_nat_v6::{RuntimeStaticNatMappingV6Config, StaticNatV6PortConfig};
use crate::net::{Ipv4Addr, Ipv6Addr};

verus! {

/// The direction of a packet.
#[derive(Debug, Clone, Copy, PartialEq, Eq, Structural)]
pub enum Gress {
    Ingress,
    Egress,
}

/// One IPv4 port mapped to one address.
#[derive(Debug, Clone, Copy, PartialEq, Eq, Structural)]
pub struct StaticNatMappingV4Item {
    pub wan_port: u16,
    pub lan_port: u16,
    pub lan_ip: Ipv4Addr,
    pub l4_protocol: u8,
}

/// What an IPv4 entry is found by.
#[derive(Debug, Clone, Copy, PartialEq, Eq, Structural)]
pub struct NatMappingKeyV4 {
    pub gress: Gress,
    pub l4proto: u8,
    pub from_port: u16,
    pub from_addr: u32,
}

/// What an IPv4 packet is rewritten to.
#[derive(Debug, Clone, Copy, PartialEq, Eq, Structural)]
pub struct Nat4StMappingValue {
    pub port: u16,
    pub addr: u32,
}

impl PlainKey for NatMappingKeyV4 {
    fn same_key(&self, other: &Self) -> (r: bool) {
        *self == *other
    }
}

pub type StaticNat4Entries = EntryMap<NatMappingKeyV4, Nat4StMappingValue>;

impl StaticNatMappingV4Item {
    /// Packets from outside are found by protocol and outer port alone.
    pub open spec fn ingress_key(self) -> NatMappingKeyV4 {
        NatMappingKeyV4 {
            gress: Gress::Ingress,
            l4proto: self.l4_protocol,
            from_port: self.wan_port,
            from_addr: 0,
        }
    }

    pub open spec fn egress_key(self) -> NatMappingKeyV4 {
        NatMappingKeyV4 {
            gress: Gress::Egress,
            l4proto: self.l4_protocol,
            from_port: self.lan_port,
            from_addr: self.lan_ip.bits,
        }
    }

    pub open spec fn ingress_value(self) -> Nat4StMappingValue {
        Nat4StMappingValue { port: self.lan_port, addr: self.lan_ip.bits }
    }

    pub open spec fn egress_value(self) -> Nat4StMappingValue {
        Nat4StMappingValue { port: self.wan_port, addr: 0 }
    }

    /// The entries once this item's two are among them.
    pub open spec fn added_to(self, m: Map<NatMappingKeyV4, Nat4StMappingValue>) -> Map<
        NatMappingKeyV4,
        Nat4StMappingValue,
    > {
        m.insert(self.ingress_key(), self.ingress_value()).insert(
            self.egress_key(),
            self.egress_value(),
        )
    }
}

/// The entries of a list of items; a later item replaces an earlier one.
pub open spec fn entries_of_items_v4(items: Seq<StaticNatMappingV4Item>) -> Map<
    NatMappingKeyV4,
    Nat4StMappingValue,
>
    decreases items.len(),
{
    if items.len() == 0 {
        Map::empty()
    } else {
        items.last().added_to(entries_of_items_v4(items.drop_last()))
    }
}

/// The items of one mapping and protocol, pair by pair.
pub open spec fn items_of_pairs_v4(
    pairs: Seq<StaticMapPair>,
    lan_ip: Ipv4Addr,
    l4_protocol: u8,
) -> Seq<StaticNatMappingV4Item> {
    pairs.map_values(
        |p: StaticMapPair|
            StaticNatMappingV4Item {
                wan_port: p.wan_port,
                lan_port: p.lan_port,
                lan_ip,
                l4_protocol,
            },
    )
}

/// The items of one mapping, protocol by protocol.
pub open spec fn items_of_protocols_v4(
    pairs: Seq<StaticMapPair>,
    lan_ip: Ipv4Addr,
    protocols: Seq<u8>,
) -> Seq<StaticNatMappingV4Item>
    decreases protocols.len(),
{
    if protocols.len() == 0 {
        Seq::empty()
    } else {
        items_of_protocols_v4(pairs, lan_ip, protocols.drop_last()) + items_of_pairs_v4(
            pairs,
            lan_ip,
            protocols.last(),
        )
    }
}

/// The items of all mappings, in order.
pub open spec fn items_of_configs_v4(configs: Seq<RuntimeStaticNatMappingV4Config>) -> Seq<
    StaticNatMappingV4Item,
>
    decreases configs.len(),
{
    if configs.len() == 0 {
        Seq::empty()
    } else {
        let c = configs.last();
        items_of_configs_v4(configs.drop_last()) + items_of_protocols_v4(
            c.mapping_pair_ports@,
            c.lan_ipv4,
            c.l4_protocols@,
        )
    }
}

fn insert_static_nat4_item_entries(
    entries: &mut StaticNat4Entries,
    static_mapping: StaticNatMappingV4Item,
)
    ensures
        final(entries)@ == static_mapping.added_to(old(entries)@),
{
    let lan_addr: u32 = static_mapping.lan_ip.bits;
    entries.insert(
        NatMappingKeyV4 {
            gress: Gress::Ingress,
            l4proto: static_mapping.l4_protocol,
            from_port: static_mapping.wan_port,
            from_addr: 0,
        },
        Nat4StMappingValue { port: static_mapping.lan_port, addr: lan_addr },
    );
    entries.insert(
        NatMappingKeyV4 {
            gress: Gress::Egress,
            l4proto: static_mapping.l4_protocol,
            from_port: static_mapping.lan_port,
            from_addr: lan_addr,
        },
        Nat4StMappingValue { port: static_mapping.wan_port, addr: 0 },
    );
}

/// The items of all mappings, in order.
pub fn list_static_nat4_items(configs: &[RuntimeStaticNatMappingV4Config]) -> (r: Vec<
    StaticNatMappingV4Item,
>)
    ensures
        r@ == items_of_configs_v4(configs@),
{
    let mut items: Vec<StaticNatMappingV4Item> = Vec::new();
    let n: usize = configs.len();
    assert(configs@.take(0) =~= Seq::empty());
    for i in 0..n
        invariant
            n == configs@.len(),
            items@ == items_of_configs_v4(configs@.take(i as int)),
    {
        let config = &configs[i];
        let lan_ip = config.lan_ipv4;
        let ghost before = items@;
        let ghost pairs = config.mapping_pair_ports@;
        let k: usize = config.l4_protocols.len();
        assert(config.l4_protocols@.take(0) =~= Seq::empty());
        assert(before + Seq::<StaticNatMappingV4Item>::empty() =~= before);
        for p in 0..k
            invariant
                k == config.l4_protocols@.len(),
                pairs == config.mapping_pair_ports@,
                lan_ip == config.lan_ipv4,
                items@ == before + items_of_protocols_v4(
                    pairs,
                    lan_ip,
                    config.l4_protocols@.take(p as int),
                ),
        {
            let l4_protocol: u8 = config.l4_protocols[p];
            let m: usize = config.mapping_pair_ports.len();
            let ghost inner = items@;
            let ghost whole = items_of_pairs_v4(pairs, lan_ip, l4_protocol);
            assert(inner + whole.take(0) =~= inner);
            for j in 0..m
                invariant
                    m == pairs.len(),
                    pairs == config.mapping_pair_ports@,
                    whole == items_of_pairs_v4(pairs, lan_ip, l4_protocol),
                    items@ == inner + whole.take(j as int),
            {
                let pair = &config.mapping_pair_ports[j];
                items.push(
                    StaticNatMappingV4Item {
                        wan_port: pair.wan_port,
                        lan_port: pair.lan_port,
                        lan_ip,
                        l4_protocol,
                    },
                );
                assert(items@ =~= inner + whole.take(j + 1));
            }
            assert(whole.take(m as int) =~= whole);
            let ghost protocols = config.l4_protocols@;
            assert(protocols.take(p + 1).drop_last() =~= protocols.take(p as int));
            assert(items@ =~= before + items_of_protocols_v4(pairs, lan_ip, protocols.take(p + 1)));
        }
        assert(config.l4_protocols@.take(k as int) =~= config.l4_protocols@);
        assert(configs@.take(i + 1).drop_last() =~= configs@.take(i as int));
    }
    assert(configs@.take(n as int) =~= configs@);
    items
}

/// The entries of a list of items; a later item replaces an earlier one.
pub fn static_nat4_entries_from_items(items: &[StaticNatMappingV4Item]) -> (r: StaticNat4Entries)
    ensures
        r@ == entries_of_items_v4(items@),
{
    let mut entries: StaticNat4Entries = EntryMap::new();
    let n: usize = items.len();
    assert(items@.take(0) =~= Seq::empty());
    for i in 0..n
        invariant
            n == items@.len(),
            entries@ == entries_of_items_v4(items@.take(i as int)),
    {
        insert_static_nat4_item_entries(&mut entries, items[i]);
        assert(items@.take(i + 1).drop_last() =~= items@.take(i as int));
    }
    assert(items@.take(n as int) =~= items@);
    entries
}

pub fn build_static_nat4_entries(configs: &[RuntimeStaticNatMappingV4Config]) -> (r:
    StaticNat4Entries)
    ensures
        r@ == entries_of_items_v4(items_of_configs_v4(configs@)),
{
    let items = list_static_nat4_items(configs);
    static_nat4_entries_from_items(&items)
}

/// One IPv6 port opened to one address; port zero stands for all ports.
#[derive(Debug, Clone, Copy, PartialEq, Eq, Structural)]
pub struct StaticNatMappingV6Item {
    pub wan_port: u16,
    pub lan_port: u16,
    pub lan_ip: Ipv6Addr,
    pub l4_protocol: u8,
}

/// What an IPv6 entry is found by, as a prefix match on its first `prefixlen`
/// bits.
#[derive(Debug, Clone, Copy, PartialEq, Eq, Structural)]
pub struct StaticNat6MappingKey {
    pub prefixlen: u32,
    pub gress: Gress,
    pub l4_protocol: u8,
    pub port: u16,
    pub addr: u128,
}

/// What an IPv6 packet is rewritten to.
#[derive(Debug, Clone, Copy, PartialEq, Eq, Structural)]
pub struct StaticNat6MappingValue {
    pub port: u16,
    pub is_static: u8,
    pub addr: u128,
}

impl PlainKey for StaticNat6MappingKey {
    fn same_key(&self, other: &Self) -> (r: bool) {
        *self == *other
    }
}

pub type StaticNat6Entries = EntryMap<StaticNat6MappingKey, StaticNat6MappingValue>;

impl StaticNatMappingV6Item {
    /// Packets from outside are matched on the 64 bits in front of the address.
    pub open spec fn ingress_key(self) -> StaticNat6MappingKey {
        StaticNat6MappingKey {
            prefixlen: 64,
            gress: Gress::Ingress,
            l4_protocol: self.l4_protocol,
            port: self.wan_port,
            addr: 0,
        }
    }

    /// Packets from inside are matched on the address too.
    pub open spec fn egress_key(self) -> StaticNat6MappingKey {
        StaticNat6MappingKey {
            prefixlen: 192,
            gress: Gress::Egress,
            l4_protocol: self.l4_protocol,
            port: self.lan_port,
            addr: self.lan_ip.bits,
        }
    }

    pub open spec fn ingress_value(self) -> StaticNat6MappingValue {
        StaticNat6MappingValue { port: self.lan_port, is_static: 1, addr: self.lan_ip.bits }
    }

    pub open spec fn egress_value(self) -> StaticNat6MappingValue {
        StaticNat6MappingValue { port: self.wan_port, is_static: 1, addr: 0 }
    }

    /// The entries once this item's two are among them.
    pub open spec fn added_to(self, m: Map<StaticNat6MappingKey, StaticNat6MappingValue>) -> Map<
        StaticNat6MappingKey,
        StaticNat6MappingValue,
    > {
        m.insert(self.ingress_key(), self.ingress_value()).insert(
            self.egress_key(),
            self.egress_value(),
        )
    }
}

/// The entries of a list of items; a later item replaces an earlier one.
pub open spec fn entries_of_items_v6(items: Seq<StaticNatMappingV6Item>) -> Map<
    StaticNat6MappingKey,
    StaticNat6MappingValue,
>
    decreases items.len(),
{
    if items.len() == 0 {
        Map::empty()
    } else {
        items.last().added_to(entries_of_items_v6(items.drop_last()))
    }
}

/// The items of one mapping and protocol: one for each port, or a single one
/// for all of them.
pub open spec fn items_of_ports_v6(
    ports: Option<Seq<u16>>,
    lan_ip: Ipv6Addr,
    l4_protocol: u8,
) -> Seq<StaticNatMappingV6Item> {
    match ports {
        None => seq![StaticNatMappingV6Item { wan_port: 0, lan_port: 0, lan_ip, l4_protocol }],
        Some(list) => list.map_values(
            |p: u16| StaticNatMappingV6Item { wan_port: p, lan_port: p, lan_ip, l4_protocol },
        ),
    }
}

/// The items of one mapping, protocol by protocol.
pub open spec fn items_of_protocols_v6(
    ports: Option<Seq<u16>>,
    lan_ip: Ipv6Addr,
    protocols: Seq<u8>,
) -> Seq<StaticNatMappingV6Item>
    decreases protocols.len(),
{
    if protocols.len() == 0 {
        Seq::empty()
    } else {
        items_of_protocols_v6(ports, lan_ip, protocols.drop_last()) + items_of_ports_v6(
            ports,
            lan_ip,
            protocols.last(),
        )
    }
}

/// The items of all mappings, in order.
pub open spec fn items_of_configs_v6(configs: Seq<RuntimeStaticNatMappingV6Config>) -> Seq<
    StaticNatMappingV6Item,
>
    decreases configs.len(),
{
    if configs.len() == 0 {
        Seq::empty()
    } else {
        let c = configs.last();
        items_of_configs_v6(configs.drop_last()) + items_of_protocols_v6(
            c.port_config@,
            c.lan_ipv6,
            c.l4_protocols@,
        )
    }
}

fn insert_static_nat6_item_entries(
    entries: &mut StaticNat6Entries,
    static_mapping: StaticNatMappingV6Item,
)
    ensures
        final(entries)@ == static_mapping.added_to(old(entries)@),
{
    let lan_addr: u128 = static_mapping.lan_ip.bits;
    entries.insert(
        StaticNat6MappingKey {
            prefixlen: 64,
            gress: Gress::Ingress,
            l4_protocol: static_mapping.l4_protocol,
            port: static_mapping.wan_port,
            addr: 0,
        },
        StaticNat6MappingValue { port: static_mapping.lan_port, is_static: 1, addr: lan_addr },
    );
    entries.insert(
        StaticNat6MappingKey {
            prefixlen: 192,
            gress: Gress::Egress,
            l4_protocol: static_mapping.l4_protocol,
            port: static_mapping.lan_port,
            addr: lan_addr,
        },
        StaticNat6MappingValue { port: static_mapping.wan_port, is_static: 1, addr: 0 },
    );
}

fn push_port_items(
    items: &mut Vec<StaticNatMappingV6Item>,
    port_config: &StaticNatV6PortConfig,
    lan_ip: Ipv6Addr,
    l4_protocol: u8,
)
    ensures
        final(items)@ == old(items)@ + items_of_ports_v6(port_config@, lan_ip, l4_protocol),
{
    match port_config {
        StaticNatV6PortConfig::All => {
            items.push(StaticNatMappingV6Item { wan_port: 0, lan_port: 0, lan_ip, l4_protocol });
            assert(items@ =~= old(items)@ + items_of_ports_v6(port_config@, lan_ip, l4_protocol));
        },
        StaticNatV6PortConfig::Ports { ports } => {
            let n: usize = ports.len();
            let ghost before = items@;
            let ghost whole = items_of_ports_v6(port_config@, lan_ip, l4_protocol);
            assert(before + whole.take(0) =~= before);
            for j in 0..n
                invariant
                    n == ports@.len(),
                    port_config@ == Some(ports@),
                    whole == items_of_ports_v6(port_config@, lan_ip, l4_protocol),
                    items@ == before + whole.take(j as int),
            {
                items.push(
                    StaticNatMappingV6Item {
                        wan_port: ports[j],
                        lan_port: ports[j],
                        lan_ip,
                        l4_protocol,
                    },
                );
                assert(items@ =~= before + whole.take(j + 1));
            }
            assert(whole.take(n as int) =~= whole);
        },
    }
}

/// The items of all mappings, in order.
pub fn list_static_nat6_items(configs: &[RuntimeStaticNatMappingV6Config]) -> (r: Vec<
    StaticNatMappingV6Item,
>)
    ensures
        r@ == items_of_configs_v6(configs@),
{
    let mut items: Vec<StaticNatMappingV6Item> = Vec::new();
    let n: usize = configs.len();
    assert(configs@.take(0) =~= Seq::empty());
    for i in 0..n
        invariant
            n == configs@.len(),
            items@ == items_of_configs_v6(configs@.take(i as int)),
    {
        let config = &configs[i];
        let lan_ip = config.lan_ipv6;
        let ghost before = items@;
        let ghost ports = config.port_config@;
        let ghost protocols = config.l4_protocols@;
        let k: usize = config.l4_protocols.len();
        assert(protocols.take(0) =~= Seq::empty());
        assert(before + Seq::<StaticNatMappingV6Item>::empty() =~= before);
        for p in 0..k
            invariant
                k == protocols.len(),
                protocols == config.l4_protocols@,
                ports == config.port_config@,
                lan_ip == config.lan_ipv6,
                items@ == before + items_of_protocols_v6(ports, lan_ip, protocols.take(p as int)),
        {
            push_port_items(&mut items, &config.port_config, lan_ip, config.l4_protocols[p]);
            assert(protocols.take(p + 1).drop_last() =~= protocols.take(p as int));
            assert(items@ =~= before + items_of_protocols_v6(ports, lan_ip, protocols.take(p + 1)));
        }
        assert(protocols.take(k as int) =~= protocols);
        assert(configs@.take(i + 1).drop_last() =~= configs@.take(i as int));
    }
    assert(configs@.take(n as int) =~= configs@);
    items
}

/// The entries of a list of items; a later item replaces an earlier one.
pub fn static_nat6_entries_from_items(items: &[StaticNatMappingV6Item]) -> (r: StaticNat6Entries)
    ensures
        r@ == entries_of_items_v6(items@),
{
    let mut entries: StaticNat6Entries = EntryMap::new();
    let n: usize = items.len();
    assert(items@.take(0) =~= Seq::empty());
    for i in 0..n
        invariant
            n == items@.len(),
            entries@ == entries_of_items_v6(items@.take(i as int)),
    {
        insert_static_nat6_item_entries(&mut entries, items[i]);
        assert(items@.take(i + 1).drop_last() =~= items@.take(i as int));
    }
    assert(items@.take(n as int) =~= items@);
    entries
}

pub fn build_static_nat6_entries(configs: &[RuntimeStaticNatMappingV6Config]) -> (r:
    StaticNat6Entries)
    ensures
        r@ == entries_of_items_v6(items_of_configs_v6(configs@)),
{
    let items = list_static_nat6_items(configs);
    static_nat6_entries_from_items(&items)
}

/// A packet from outside to a mapped port is sent to the target of the last
/// item for that protocol and port.
pub proof fn law_last_ingress_wins_v4(items: Seq<StaticNatMappingV4Item>, i: int)
    requires
        0 <= i < items.len(),
        forall|k: int|
            i < k < items.len() ==> !((#[trigger] items[k]).l4_protocol == items[i].l4_protocol
                && items[k].wan_port == items[i].wan_port),
    ensures
        entries_of_items_v4(items).contains_key(items[i].ingress_key()),
        entries_of_items_v4(items)[items[i].ingress_key()] == items[i].ingress_value(),
    decreases items.len(),
{
    if i < items.len() - 1 {
        let front = items.drop_last();
        assert(front[i] == items[i]);
        assert(items[items.len() - 1].ingress_key() != items[i].ingress_key());
        law_last_ingress_wins_v4(front, i);
    }
}

/// A packet from a mapped inner port leaves from the outer port of the last
/// item for that protocol, address and inner port.
pub proof fn law_last_egress_wins_v4(items: Seq<StaticNatMappingV4Item>, i: int)
    requires
        0 <= i < items.len(),
        forall|k: int|
            i < k < items.len() ==> !((#[trigger] items[k]).l4_protocol == items[i].l4_protocol
                && items[k].lan_port == items[i].lan_port && items[k].lan_ip == items[i].lan_ip),
    ensures
        entries_of_items_v4(items).contains_key(items[i].egress_key()),
        entries_of_items_v4(items)[items[i].egress_key()] == items[i].egress_value(),
    decreases items.len(),
{
    if i < items.len() - 1 {
        let front = items.drop_last();
        assert(front[i] == items[i]);
        assert(items[items.len() - 1].egress_key() != items[i].egress_key());
        law_last_egress_wins_v4(front, i);
    }
}

/// Every entry comes from some item.
pub proof fn law_entries_come_from_items_v4(
    items: Seq<StaticNatMappingV4Item>,
    key: NatMappingKeyV4,
)
    requires
        entries_of_items_v4(items).contains_key(key),
    ensures
        exists|i: int|
            0 <= i < items.len() && (((#[trigger] items[i]).ingress_key() == key
                && entries_of_items_v4(items)[key] == items[i].ingress_value()) || (
            items[i].egress_key() == key && entries_of_items_v4(items)[key]
                == items[i].egress_value())),
    decreases items.len(),
{
    if items.len() > 0 {
        let front = items.drop_last();
        let last = items.len() - 1;
        if items[last].egress_key() == key || items[last].ingress_key() == key {
            assert(items[last].ingress_key() == key || items[last].egress_key() == key);
        } else {
            law_entries_come_from_items_v4(front, key);
            let i = choose|i: int|
                0 <= i < front.len() && (((#[trigger] front[i]).ingress_key() == key
                    && entries_of_items_v4(front)[key] == front[i].ingress_value()) || (
                front[i].egress_key() == key && entries_of_items_v4(front)[key]
                    == front[i].egress_value()));
            assert(items[i] == front[i]);
        }
    }
}

/// A packet from outside to an opened port is sent to the target of the last
/// item for that protocol and port.
pub proof fn law_last_ingress_wins_v6(items: Seq<StaticNatMappingV6Item>, i: int)
    requires
        0 <= i < items.len(),
        forall|k: int|
            i < k < items.len() ==> !((#[trigger] items[k]).l4_protocol == items[i].l4_protocol
                && items[k].wan_port == items[i].wan_port),
    ensures
        entries_of_items_v6(items).contains_key(items[i].ingress_key()),
        entries_of_items_v6(items)[items[i].ingress_key()] == items[i].ingress_value(),
    decreases items.len(),
{
    if i < items.len() - 1 {
        let front = items.drop_last();
        assert(front[i] == items[i]);
        assert(items[items.len() - 1].ingress_key() != items[i].ingress_key());
        law_last_ingress_wins_v6(front, i);
    }
}

/// A packet from an opened inner port leaves from the outer port of the last
/// item for that protocol, address and inner port.
pub proof fn law_last_egress_wins_v6(items: Seq<StaticNatMappingV6Item>, i: int)
    requires
        0 <= i < items.len(),
        forall|k: int|
            i < k < items.len() ==> !((#[trigger] items[k]).l4_protocol == items[i].l4_protocol
                && items[k].lan_port == items[i].lan_port && items[k].lan_ip == items[i].lan_ip),
    ensures
        entries_of_items_v6(items).contains_key(items[i].egress_key()),
        entries_of_items_v6(items)[items[i].egress_key()] == items[i].egress_value(),
    decreases items.len(),
{
    if i < items.len() - 1 {
        let front = items.drop_last();
        assert(front[i] == items[i]);
        assert(items[items.len() - 1].egress_key() != items[i].egress_key());
        law_last_egress_wins_v6(front, i);
    }
}

/// Every IPv6 entry comes from some item.
pub proof fn law_entries_come_from_items_v6(
    items: Seq<StaticNatMappingV6Item>,
    key: StaticNat6MappingKey,
)
    requires
        entries_of_items_v6(items).contains_key(key),
    ensures
        exists|i: int|
            0 <= i < items.len() && (((#[trigger] items[i]).ingress_key() == key
                && entries_of_items_v6(items)[key] == items[i].ingress_value()) || (
            items[i].egress_key() == key && entries_of_items_v6(items)[key]
                == items[i].egress_value())),
    decreases items.len(),
{
    if items.len() > 0 {
        let front = items.drop_last();
        let last = items.len() - 1;
        if items[last].egress_key() == key || items[last].ingress_key() == key {
            assert(items[last].ingress_key() == key || items[last].egress_key() == key);
        } else {
            law_entries_come_from_items_v6(front, key);
            let i = choose|i: int|
                0 <= i < front.len() && (((#[trigger] front[i]).ingress_key() == key
                    && entries_of_items_v6(front)[key] == front[i].ingress_value()) || (
                front[i].egress_key() == key && entries_of_items_v6(front)[key]
                    == front[i].egress_value()));
            assert(items[i] == front[i]);
        }
    }
}

/// Whether a mapping opens a port for a protocol: one that it lists, or port
/// zero where it is for all ports.
pub open spec fn opens_port(c: RuntimeStaticNatMappingV6Config, protocol: u8, port: u16) -> bool {
    c.l4_protocols@.contains(protocol) && match c.port_config {
        StaticNatV6PortConfig::All => port == 0,
        StaticNatV6PortConfig::Ports { ports } => ports@.contains(port),
    }
}

/// Whether the last item for the protocol and outer port of an item is that item.
spec fn is_last_v6(items: Seq<StaticNatMappingV6Item>, item: StaticNatMappingV6Item) -> bool {
    exists|i: int|
        0 <= i < items.len() && (#[trigger] items[i]) == item && forall|k: int|
            i < k < items.len() ==> !((#[trigger] items[k]).l4_protocol == item.l4_protocol
                && items[k].wan_port == item.wan_port)
}

spec fn has_port_v6(items: Seq<StaticNatMappingV6Item>, protocol: u8, port: u16) -> bool {
    exists|i: int|
        0 <= i < items.len() && (#[trigger] items[i]).l4_protocol == protocol && items[i].wan_port
            == port
}

proof fn lemma_last_in_back_v6(
    front: Seq<StaticNatMappingV6Item>,
    back: Seq<StaticNatMappingV6Item>,
    item: StaticNatMappingV6Item,
)
    requires
        is_last_v6(back, item),
    ensures
        is_last_v6(front + back, item),
{
    let whole = front + back;
    let i = choose|i: int|
        0 <= i < back.len() && (#[trigger] back[i]) == item && forall|k: int|
            i < k < back.len() ==> !((#[trigger] back[k]).l4_protocol == item.l4_protocol
                && back[k].wan_port == item.wan_port);
    let at = front.len() + i;
    assert(whole[at] == item);
    assert forall|k: int| at < k < whole.len() implies !((#[trigger] whole[k]).l4_protocol
        == item.l4_protocol && whole[k].wan_port == item.wan_port) by {
        assert(whole[k] == back[k - front.len()]);
    }
}

proof fn lemma_last_in_front_v6(
    front: Seq<StaticNatMappingV6Item>,
    back: Seq<StaticNatMappingV6Item>,
    item: StaticNatMappingV6Item,
)
    requires
        is_last_v6(front, item),
        !has_port_v6(back, item.l4_protocol, item.wan_port),
    ensures
        is_last_v6(front + back, item),
{
    let whole = front + back;
    let i = choose|i: int|
        0 <= i < front.len() && (#[trigger] front[i]) == item && forall|k: int|
            i < k < front.len() ==> !((#[trigger] front[k]).l4_protocol == item.l4_protocol
                && front[k].wan_port == item.wan_port);
    assert(whole[i] == item);
    assert forall|k: int| i < k < whole.len() implies !((#[trigger] whole[k]).l4_protocol
        == item.l4_protocol && whole[k].wan_port == item.wan_port) by {
        if k < front.len() {
            assert(whole[k] == front[k]);
        } else {
            assert(whole[k] == back[k - front.len()]);
        }
    }
}

proof fn lemma_last_of_ports_v6(list: Seq<u16>, lan_ip: Ipv6Addr, protocol: u8, port: u16)
    requires
        list.contains(port),
    ensures
        is_last_v6(
            items_of_ports_v6(Some(list), lan_ip, protocol),
            StaticNatMappingV6Item {
                wan_port: port,
                lan_port: port,
                lan_ip,
                l4_protocol: protocol,
            },
        ),
    decreases list.len(),
{
    let item = StaticNatMappingV6Item {
        wan_port: port,
        lan_port: port,
        lan_ip,
        l4_protocol: protocol,
    };
    let less = list.drop_last();
    let whole = items_of_ports_v6(Some(list), lan_ip, protocol);
    let front = items_of_ports_v6(Some(less), lan_ip, protocol);
    let back = seq![whole.last()];
    assert(whole =~= front + back);
    if list.last() == port {
        assert(back[0] == item);
        assert(is_last_v6(back, item));
        lemma_last_in_back_v6(front, back, item);
    } else {
        let i = choose|i: int| 0 <= i < list.len() && list[i] == port;
        assert(less[i] == port);
        lemma_last_of_ports_v6(less, lan_ip, protocol, port);
        lemma_last_in_front_v6(front, back, item);
    }
}

proof fn lemma_ports_of_mapping_v6(
    c: RuntimeStaticNatMappingV6Config,
    protocols: Seq<u8>,
    protocol: u8,
    port: u16,
)
    requires
        match c.port_config {
            StaticNatV6PortConfig::All => port == 0,
            StaticNatV6PortConfig::Ports { ports } => ports@.contains(port),
        },
        protocols.contains(protocol),
    ensures
        is_last_v6(
            items_of_protocols_v6(c.port_config@, c.lan_ipv6, protocols),
            StaticNatMappingV6Item {
                wan_port: port,
                lan_port: port,
                lan_ip: c.lan_ipv6,
                l4_protocol: protocol,
            },
        ),
    decreases protocols.len(),
{
    let item = StaticNatMappingV6Item {
        wan_port: port,
        lan_port: port,
        lan_ip: c.lan_ipv6,
        l4_protocol: protocol,
    };
    let less = protocols.drop_last();
    let front = items_of_protocols_v6(c.port_config@, c.lan_ipv6, less);
    let back = items_of_ports_v6(c.port_config@, c.lan_ipv6, protocols.last());
    if protocols.last() == protocol {
        match c.port_config {
            StaticNatV6PortConfig::All => {
                assert(back[0] == item);
            },
            StaticNatV6PortConfig::Ports { ports } => {
                lemma_last_of_ports_v6(ports@, c.lan_ipv6, protocol, port);
            },
        }
        assert(is_last_v6(back, item));
        lemma_last_in_back_v6(front, back, item);
    } else {
        let i = choose|i: int| 0 <= i < protocols.len() && protocols[i] == protocol;
        assert(less[i] == protocol);
        lemma_ports_of_mapping_v6(c, less, protocol, port);
        lemma_last_in_front_v6(front, back, item);
    }
}

/// Every item comes from a port that some mapping opens.
proof fn lemma_items_come_from_mappings_v6(
    ports: Option<Seq<u16>>,
    lan_ip: Ipv6Addr,
    protocols: Seq<u8>,
    i: int,
)
    requires
        0 <= i < items_of_protocols_v6(ports, lan_ip, protocols).len(),
    ensures
        ({
            let item = items_of_protocols_v6(ports, lan_ip, protocols)[i];
            &&& item.lan_ip == lan_ip
            &&& item.lan_port == item.wan_port
            &&& protocols.contains(item.l4_protocol)
            &&& match ports {
                None => item.wan_port == 0,
                Some(list) => list.contains(item.wan_port),
            }
        }),
    decreases protocols.len(),
{
    let less = protocols.drop_last();
    let front = items_of_protocols_v6(ports, lan_ip, less);
    if i < front.len() {
        lemma_items_come_from_mappings_v6(ports, lan_ip, less, i);
        let p = front[i].l4_protocol;
        let k = choose|k: int| 0 <= k < less.len() && less[k] == p;
        assert(protocols[k] == p);
    } else {
        let back = items_of_ports_v6(ports, lan_ip, protocols.last());
        assert(items_of_protocols_v6(ports, lan_ip, protocols)[i] == back[i - front.len()]);
        assert(protocols[protocols.len() - 1] == protocols.last());
        if let Some(list) = ports {
            assert(list[i - front.len()] == back[i - front.len()].wan_port);
        }
    }
}

proof fn lemma_last_of_mappings_v6(
    configs: Seq<RuntimeStaticNatMappingV6Config>,
    c: int,
    protocol: u8,
    port: u16,
)
    requires
        0 <= c < configs.len(),
        opens_port(configs[c], protocol, port),
        forall|k: int|
            c < k < configs.len() ==> !opens_port(#[trigger] configs[k], protocol, port),
    ensures
        is_last_v6(
            items_of_configs_v6(configs),
            StaticNatMappingV6Item {
                wan_port: port,
                lan_port: port,
                lan_ip: configs[c].lan_ipv6,
                l4_protocol: protocol,
            },
        ),
    decreases configs.len(),
{
    let item = StaticNatMappingV6Item {
        wan_port: port,
        lan_port: port,
        lan_ip: configs[c].lan_ipv6,
        l4_protocol: protocol,
    };
    let last = configs.last();
    let less = configs.drop_last();
    let front = items_of_configs_v6(less);
    let back = items_of_protocols_v6(last.port_config@, last.lan_ipv6, last.l4_protocols@);
    if c == configs.len() - 1 {
        lemma_ports_of_mapping_v6(last, last.l4_protocols@, protocol, port);
        lemma_last_in_back_v6(front, back, item);
    } else {
        assert(less[c] == configs[c]);
        assert forall|k: int| c < k < less.len() implies !opens_port(
            #[trigger] less[k],
            protocol,
            port,
        ) by {
            assert(less[k] == configs[k]);
        }
        lemma_last_of_mappings_v6(less, c, protocol, port);
        assert(!opens_port(configs[configs.len() - 1], protocol, port));
        if has_port_v6(back, protocol, port) {
            let i = choose|i: int|
                0 <= i < back.len() && (#[trigger] back[i]).l4_protocol == protocol
                    && back[i].wan_port == port;
            lemma_items_come_from_mappings_v6(
                last.port_config@,
                last.lan_ipv6,
                last.l4_protocols@,
                i,
            );
        }
        lemma_last_in_front_v6(front, back, item);
    }
}

/// A port that a mapping opens for a protocol, and no later mapping does, leads
/// from outside to the same port of the mapping's address.
pub proof fn law_opened_port_leads_in_v6(
    configs: Seq<RuntimeStaticNatMappingV6Config>,
    c: int,
    protocol: u8,
    port: u16,
)
    requires
        0 <= c < configs.len(),
        opens_port(configs[c], protocol, port),
        forall|k: int|
            c < k < configs.len() ==> !opens_port(#[trigger] configs[k], protocol, port),
    ensures
        ({
            let entries = entries_of_items_v6(items_of_configs_v6(configs));
            let key = StaticNat6MappingKey {
                prefixlen: 64,
                gress: Gress::Ingress,
                l4_protocol: protocol,
                port,
                addr: 0,
            };
            let value = StaticNat6MappingValue {
                port,
                is_static: 1,
                addr: configs[c].lan_ipv6.bits,
            };
            entries.contains_key(key) && entries[key] == value
        }),
{
    lemma_last_of_mappings_v6(configs, c, protocol, port);
    let items = items_of_configs_v6(configs);
    let item = StaticNatMappingV6Item {
        wan_port: port,
        lan_port: port,
        lan_ip: configs[c].lan_ipv6,
        l4_protocol: protocol,
    };
    let i = choose|i: int|
        0 <= i < items.len() && (#[trigger] items[i]) == item && forall|k: int|
            i < k < items.len() ==> !((#[trigger] items[k]).l4_protocol == item.l4_protocol
                && items[k].wan_port == item.wan_port);
    law_last_ingress_wins_v6(items, i);
}

/// A port that a mapping opens for a protocol leaves from the mapping's
/// address as the same port.
pub proof fn law_opened_port_leads_out_v6(
    configs: Seq<RuntimeStaticNatMappingV6Config>,
    c: int,
    protocol: u8,
    port: u16,
)
    requires
        0 <= c < configs.len(),
        opens_port(configs[c], protocol, port),
    ensures
        ({
            let entries = entries_of_items_v6(items_of_configs_v6(configs));
            let key = StaticNat6MappingKey {
                prefixlen: 192,
                gress: Gress::Egress,
                l4_protocol: protocol,
                port,
                addr: configs[c].lan_ipv6.bits,
            };
            let value = StaticNat6MappingValue { port, is_static: 1, addr: 0 };
            entries.contains_key(key) && entries[key] == value
        }),
{
    let items = items_of_configs_v6(configs);
    let upto = configs.take(c + 1);
    assert(upto[c] == configs[c]);
    lemma_last_of_mappings_v6(upto, c, protocol, port);
    let first = items_of_configs_v6(upto);
    let item = StaticNatMappingV6Item {
        wan_port: port,
        lan_port: port,
        lan_ip: configs[c].lan_ipv6,
        l4_protocol: protocol,
    };
    let i = choose|i: int| 0 <= i < first.len() && (#[trigger] first[i]) == item;
    lemma_items_of_first_configs_v6(configs, c + 1, i);
    assert(items[i] == item);
    lemma_egress_kept_v6(items, i);
    lemma_all_ports_alike_v6(configs);
    law_entries_come_from_items_v6(items, item.egress_key());
}

proof fn lemma_items_of_first_configs_v6(
    configs: Seq<RuntimeStaticNatMappingV6Config>,
    n: int,
    i: int,
)
    requires
        0 <= n <= configs.len(),
        0 <= i < items_of_configs_v6(configs.take(n)).len(),
    ensures
        i < items_of_configs_v6(configs).len(),
        items_of_configs_v6(configs)[i] == items_of_configs_v6(configs.take(n))[i],
    decreases configs.len() - n,
{
    if n == configs.len() {
        assert(configs.take(n) =~= configs);
    } else {
        assert(configs.take(n + 1).drop_last() =~= configs.take(n));
        lemma_items_of_first_configs_v6(configs, n + 1, i);
    }
}

proof fn lemma_egress_kept_v6(items: Seq<StaticNatMappingV6Item>, i: int)
    requires
        0 <= i < items.len(),
    ensures
        entries_of_items_v6(items).contains_key(items[i].egress_key()),
    decreases items.len(),
{
    if i < items.len() - 1 {
        assert(items.drop_last()[i] == items[i]);
        lemma_egress_kept_v6(items.drop_last(), i);
    }
}

proof fn lemma_all_ports_alike_v6(configs: Seq<RuntimeStaticNatMappingV6Config>)
    ensures
        forall|i: int|
            0 <= i < items_of_configs_v6(configs).len() ==> (#[trigger] items_of_configs_v6(
                configs,
            )[i]).lan_port == items_of_configs_v6(configs)[i].wan_port,
    decreases configs.len(),
{
    if configs.len() > 0 {
        let last = configs.last();
        let front = items_of_configs_v6(configs.drop_last());
        let back = items_of_protocols_v6(last.port_config@, last.lan_ipv6, last.l4_protocols@);
        lemma_all_ports_alike_v6(configs.drop_last());
        assert forall|i: int| 0 <= i < items_of_configs_v6(configs).len() implies (
        #[trigger] items_of_configs_v6(configs)[i]).lan_port == items_of_configs_v6(
            configs,
        )[i].wan_port by {
            if i < front.len() {
                assert(items_of_configs_v6(configs)[i] == front[i]);
            } else {
                assert(items_of_configs_v6(configs)[i] == back[i - front.len()]);
                lemma_items_come_from_mappings_v6(
                    last.port_config@,
                    last.lan_ipv6,
                    last.l4_protocols@,
                    i - front.len(),
                );
            }
        }
    }
}

/// Whether an entry is one of the two that a mapping makes for a port.
pub open spec fn made_by_v6(
    c: RuntimeStaticNatMappingV6Config,
    key: StaticNat6MappingKey,
    value: StaticNat6MappingValue,
) -> bool {
    &&& opens_port(c, key.l4_protocol, key.port)
    &&& value.port == key.port
    &&& value.is_static == 1
    &&& match key.gress {
        Gress::Ingress => key.prefixlen == 64 && key.addr == 0 && value.addr == c.lan_ipv6.bits,
        Gress::Egress => key.prefixlen == 192 && key.addr == c.lan_ipv6.bits && value.addr == 0,
    }
}

proof fn lemma_mapping_of_item_v6(configs: Seq<RuntimeStaticNatMappingV6Config>, i: int) -> (c: int)
    requires
        0 <= i < items_of_configs_v6(configs).len(),
    ensures
        0 <= c < configs.len(),
        ({
            let item = items_of_configs_v6(configs)[i];
            &&& item.lan_ip == configs[c].lan_ipv6
            &&& item.lan_port == item.wan_port
            &&& opens_port(configs[c], item.l4_protocol, item.wan_port)
        }),
    decreases configs.len(),
{
    let last = configs.last();
    let less = configs.drop_last();
    let front = items_of_configs_v6(less);
    if i < front.len() {
        let c = lemma_mapping_of_item_v6(less, i);
        assert(less[c] == configs[c]);
        c
    } else {
        let back = items_of_protocols_v6(last.port_config@, last.lan_ipv6, last.l4_protocols@);
        assert(items_of_configs_v6(configs)[i] == back[i - front.len()]);
        lemma_items_come_from_mappings_v6(
            last.port_config@,
            last.lan_ipv6,
            last.l4_protocols@,
            i - front.len(),
        );
        configs.len() - 1
    }
}

/// Every entry is one that some mapping makes for a port that it opens; in
/// particular one for port zero is there only where a mapping is for all ports
/// or lists port zero.
pub proof fn law_entries_come_from_mappings_v6(
    configs: Seq<RuntimeStaticNatMappingV6Config>,
    key: StaticNat6MappingKey,
)
    requires
        entries_of_items_v6(items_of_configs_v6(configs)).contains_key(key),
    ensures
        exists|c: int|
            0 <= c < configs.len() && made_by_v6(
                #[trigger] configs[c],
                key,
                entries_of_items_v6(items_of_configs_v6(configs))[key],
            ),
{
    let items = items_of_configs_v6(configs);
    let value = entries_of_items_v6(items)[key];
    law_entries_come_from_items_v6(items, key);
    let i = choose|i: int|
        0 <= i < items.len() && (((#[trigger] items[i]).ingress_key() == key && value
            == items[i].ingress_value()) || (items[i].egress_key() == key && value
            == items[i].egress_value()));
    let c = lemma_mapping_of_item_v6(configs, i);
    assert(made_by_v6(configs[c], key, value));
}

/// Whether a mapping takes a port from outside for a protocol.
pub open spec fn takes_port_in(c: RuntimeStaticNatMappingV4Config, protocol: u8, port: u16) -> bool {
    c.l4_protocols@.contains(protocol) && exists|j: int|
        0 <= j < c.mapping_pair_ports@.len() && (#[trigger] c.mapping_pair_ports@[j]).wan_port
            == port
}

/// Whether a mapping takes a port of an inner address for a protocol.
pub open spec fn takes_port_out(
    c: RuntimeStaticNatMappingV4Config,
    protocol: u8,
    port: u16,
    addr: Ipv4Addr,
) -> bool {
    c.lan_ipv4 == addr && c.l4_protocols@.contains(protocol) && exists|j: int|
        0 <= j < c.mapping_pair_ports@.len() && (#[trigger] c.mapping_pair_ports@[j]).lan_port
            == port
}

/// Whether two items have the same key for packets in one direction.
spec fn same_way_v4(inward: bool, a: StaticNatMappingV4Item, b: StaticNatMappingV4Item) -> bool {
    a.l4_protocol == b.l4_protocol && if inward {
        a.wan_port == b.wan_port
    } else {
        a.lan_port == b.lan_port && a.lan_ip == b.lan_ip
    }
}

/// Whether the last item with the key of an item is that item.
spec fn is_last_v4(
    inward: bool,
    items: Seq<StaticNatMappingV4Item>,
    item: StaticNatMappingV4Item,
) -> bool {
    exists|i: int|
        0 <= i < items.len() && (#[trigger] items[i]) == item && forall|k: int|
            i < k < items.len() ==> !same_way_v4(inward, #[trigger] items[k], item)
}

proof fn lemma_last_in_back_v4(
    inward: bool,
    front: Seq<StaticNatMappingV4Item>,
    back: Seq<StaticNatMappingV4Item>,
    item: StaticNatMappingV4Item,
)
    requires
        is_last_v4(inward, back, item),
    ensures
        is_last_v4(inward, front + back, item),
{
    let whole = front + back;
    let i = choose|i: int|
        0 <= i < back.len() && (#[trigger] back[i]) == item && forall|k: int|
            i < k < back.len() ==> !same_way_v4(inward, #[trigger] back[k], item);
    let at = front.len() + i;
    assert(whole[at] == item);
    assert forall|k: int| at < k < whole.len() implies !same_way_v4(
        inward,
        #[trigger] whole[k],
        item,
    ) by {
        assert(whole[k] == back[k - front.len()]);
    }
}

proof fn lemma_last_in_front_v4(
    inward: bool,
    front: Seq<StaticNatMappingV4Item>,
    back: Seq<StaticNatMappingV4Item>,
    item: StaticNatMappingV4Item,
)
    requires
        is_last_v4(inward, front, item),
        forall|k: int|
            0 <= k < back.len() ==> !same_way_v4(inward, #[trigger] back[k], item),
    ensures
        is_last_v4(inward, front + back, item),
{
    let whole = front + back;
    let i = choose|i: int|
        0 <= i < front.len() && (#[trigger] front[i]) == item && forall|k: int|
            i < k < front.len() ==> !same_way_v4(inward, #[trigger] front[k], item);
    assert(whole[i] == item);
    assert forall|k: int| i < k < whole.len() implies !same_way_v4(
        inward,
        #[trigger] whole[k],
        item,
    ) by {
        if k < front.len() {
            assert(whole[k] == front[k]);
        } else {
            assert(whole[k] == back[k - front.len()]);
        }
    }
}

/// The item of one pair of a mapping.
spec fn item_v4(c: RuntimeStaticNatMappingV4Config, protocol: u8, j: int) -> StaticNatMappingV4Item {
    StaticNatMappingV4Item {
        wan_port: c.mapping_pair_ports@[j].wan_port,
        lan_port: c.mapping_pair_ports@[j].lan_port,
        lan_ip: c.lan_ipv4,
        l4_protocol: protocol,
    }
}

proof fn lemma_pair_of_mapping_v4(
    inward: bool,
    c: RuntimeStaticNatMappingV4Config,
    protocols: Seq<u8>,
    protocol: u8,
    j: int,
)
    requires
        0 <= j < c.mapping_pair_ports@.len(),
        protocols.contains(protocol),
        forall|k: int|
            j < k < c.mapping_pair_ports@.len() ==> if inward {
                (#[trigger] c.mapping_pair_ports@[k]).wan_port != c.mapping_pair_ports@[j].wan_port
            } else {
                c.mapping_pair_ports@[k].lan_port != c.mapping_pair_ports@[j].lan_port
            },
    ensures
        is_last_v4(
            inward,
            items_of_protocols_v4(c.mapping_pair_ports@, c.lan_ipv4, protocols),
            item_v4(c, protocol, j),
        ),
    decreases protocols.len(),
{
    let pairs = c.mapping_pair_ports@;
    let item = item_v4(c, protocol, j);
    let less = protocols.drop_last();
    let front = items_of_protocols_v4(pairs, c.lan_ipv4, less);
    let back = items_of_pairs_v4(pairs, c.lan_ipv4, protocols.last());
    if protocols.last() == protocol {
        assert(back[j] == item);
        assert forall|k: int| j < k < back.len() implies !same_way_v4(
            inward,
            #[trigger] back[k],
            item,
        ) by {
            assert(back[k].wan_port == pairs[k].wan_port && back[k].lan_port == pairs[k].lan_port);
        }
        lemma_last_in_back_v4(inward, front, back, item);
    } else {
        let i = choose|i: int| 0 <= i < protocols.len() && protocols[i] == protocol;
        assert(less[i] == protocol);
        lemma_pair_of_mapping_v4(inward, c, less, protocol, j);
        lemma_last_in_front_v4(inward, front, back, item);
    }
}

proof fn lemma_pair_of_item_v4(
    c: RuntimeStaticNatMappingV4Config,
    protocols: Seq<u8>,
    i: int,
) -> (j: int)
    requires
        0 <= i < items_of_protocols_v4(c.mapping_pair_ports@, c.lan_ipv4, protocols).len(),
    ensures
        ({
            let item = items_of_protocols_v4(c.mapping_pair_ports@, c.lan_ipv4, protocols)[i];
            &&& 0 <= j < c.mapping_pair_ports@.len()
            &&& item == item_v4(c, item.l4_protocol, j)
            &&& protocols.contains(item.l4_protocol)
        }),
    decreases protocols.len(),
{
    let pairs = c.mapping_pair_ports@;
    let less = protocols.drop_last();
    let front = items_of_protocols_v4(pairs, c.lan_ipv4, less);
    if i < front.len() {
        let j = lemma_pair_of_item_v4(c, less, i);
        let p = front[i].l4_protocol;
        let k = choose|k: int| 0 <= k < less.len() && less[k] == p;
        assert(protocols[k] == p);
        j
    } else {
        let back = items_of_pairs_v4(pairs, c.lan_ipv4, protocols.last());
        assert(items_of_protocols_v4(pairs, c.lan_ipv4, protocols)[i] == back[i - front.len()]);
        assert(protocols[protocols.len() - 1] == protocols.last());
        i - front.len()
    }
}

/// Whether no mapping behind another one takes the port of an item in the same
/// direction.
spec fn none_after_v4(
    inward: bool,
    configs: Seq<RuntimeStaticNatMappingV4Config>,
    c: int,
    item: StaticNatMappingV4Item,
) -> bool {
    forall|k: int|
        c < k < configs.len() ==> if inward {
            !takes_port_in(#[trigger] configs[k], item.l4_protocol, item.wan_port)
        } else {
            !takes_port_out(configs[k], item.l4_protocol, item.lan_port, item.lan_ip)
        }
}

proof fn lemma_last_of_mappings_v4(
    inward: bool,
    configs: Seq<RuntimeStaticNatMappingV4Config>,
    c: int,
    protocol: u8,
    j: int,
)
    requires
        0 <= c < configs.len(),
        0 <= j < configs[c].mapping_pair_ports@.len(),
        configs[c].l4_protocols@.contains(protocol),
        forall|k: int|
            j < k < configs[c].mapping_pair_ports@.len() ==> if inward {
                (#[trigger] configs[c].mapping_pair_ports@[k]).wan_port
                    != configs[c].mapping_pair_ports@[j].wan_port
            } else {
                configs[c].mapping_pair_ports@[k].lan_port
                    != configs[c].mapping_pair_ports@[j].lan_port
            },
        none_after_v4(inward, configs, c, item_v4(configs[c], protocol, j)),
    ensures
        is_last_v4(inward, items_of_configs_v4(configs), item_v4(configs[c], protocol, j)),
    decreases configs.len(),
{
    let item = item_v4(configs[c], protocol, j);
    let last = configs.last();
    let less = configs.drop_last();
    let front = items_of_configs_v4(less);
    let back = items_of_protocols_v4(last.mapping_pair_ports@, last.lan_ipv4, last.l4_protocols@);
    if c == configs.len() - 1 {
        lemma_pair_of_mapping_v4(inward, last, last.l4_protocols@, protocol, j);
        lemma_last_in_back_v4(inward, front, back, item);
    } else {
        assert(less[c] == configs[c]);
        assert(none_after_v4(inward, less, c, item)) by {
            assert forall|k: int| c < k < less.len() implies if inward {
                !takes_port_in(#[trigger] less[k], item.l4_protocol, item.wan_port)
            } else {
                !takes_port_out(less[k], item.l4_protocol, item.lan_port, item.lan_ip)
            } by {
                assert(less[k] == configs[k]);
            }
        }
        lemma_last_of_mappings_v4(inward, less, c, protocol, j);
        assert(configs[configs.len() - 1] == last);
        assert forall|i: int| 0 <= i < back.len() implies !same_way_v4(
            inward,
            #[trigger] back[i],
            item,
        ) by {
            let m = lemma_pair_of_item_v4(last, last.l4_protocols@, i);
            if same_way_v4(inward, back[i], item) {
                let pair = last.mapping_pair_ports@[m];
                if inward {
                    assert(pair.wan_port == item.wan_port);
                    assert(takes_port_in(configs[configs.len() - 1], protocol, item.wan_port));
                } else {
                    assert(pair.lan_port == item.lan_port);
                    assert(takes_port_out(
                        configs[configs.len() - 1],
                        protocol,
                        item.lan_port,
                        item.lan_ip,
                    ));
                }
            }
        }
        lemma_last_in_front_v4(inward, front, back, item);
    }
}

/// The outer port of a pair of a mapping, where no later pair and no later
/// mapping takes it, leads from outside to the inner port of that pair at the
/// mapping's address.
pub proof fn law_mapped_port_leads_in_v4(
    configs: Seq<RuntimeStaticNatMappingV4Config>,
    c: int,
    protocol: u8,
    j: int,
)
    requires
        0 <= c < configs.len(),
        0 <= j < configs[c].mapping_pair_ports@.len(),
        configs[c].l4_protocols@.contains(protocol),
        forall|k: int|
            j < k < configs[c].mapping_pair_ports@.len() ==> (
            #[trigger] configs[c].mapping_pair_ports@[k]).wan_port
                != configs[c].mapping_pair_ports@[j].wan_port,
        forall|k: int|
            c < k < configs.len() ==> !takes_port_in(
                #[trigger] configs[k],
                protocol,
                configs[c].mapping_pair_ports@[j].wan_port,
            ),
    ensures
        ({
            let entries = entries_of_items_v4(items_of_configs_v4(configs));
            let pair = configs[c].mapping_pair_ports@[j];
            let key = NatMappingKeyV4 {
                gress: Gress::Ingress,
                l4proto: protocol,
                from_port: pair.wan_port,
                from_addr: 0,
            };
            let value = Nat4StMappingValue {
                port: pair.lan_port,
                addr: configs[c].lan_ipv4.bits,
            };
            entries.contains_key(key) && entries[key] == value
        }),
{
    let item = item_v4(configs[c], protocol, j);
    let items = items_of_configs_v4(configs);
    lemma_last_of_mappings_v4(true, configs, c, protocol, j);
    let i = choose|i: int|
        0 <= i < items.len() && (#[trigger] items[i]) == item && forall|k: int|
            i < k < items.len() ==> !same_way_v4(true, #[trigger] items[k], item);
    assert forall|k: int| i < k < items.len() implies !((#[trigger] items[k]).l4_protocol
        == items[i].l4_protocol && items[k].wan_port == items[i].wan_port) by {
        assert(!same_way_v4(true, items[k], item));
    }
    law_last_ingress_wins_v4(items, i);
}

/// The inner port of a pair of a mapping, where no later pair and no later
/// mapping takes it for that address, leaves as the outer port of that pair.
pub proof fn law_mapped_port_leads_out_v4(
    configs: Seq<RuntimeStaticNatMappingV4Config>,
    c: int,
    protocol: u8,
    j: int,
)
    requires
        0 <= c < configs.len(),
        0 <= j < configs[c].mapping_pair_ports@.len(),
        configs[c].l4_protocols@.contains(protocol),
        forall|k: int|
            j < k < configs[c].mapping_pair_ports@.len() ==> (
            #[trigger] configs[c].mapping_pair_ports@[k]).lan_port
                != configs[c].mapping_pair_ports@[j].lan_port,
        forall|k: int|
            c < k < configs.len() ==> !takes_port_out(
                #[trigger] configs[k],
                protocol,
                configs[c].mapping_pair_ports@[j].lan_port,
                configs[c].lan_ipv4,
            ),
    ensures
        ({
            let entries = entries_of_items_v4(items_of_configs_v4(configs));
            let pair = configs[c].mapping_pair_ports@[j];
            let key = NatMappingKeyV4 {
                gress: Gress::Egress,
                l4proto: protocol,
                from_port: pair.lan_port,
                from_addr: configs[c].lan_ipv4.bits,
            };
            let value = Nat4StMappingValue { port: pair.wan_port, addr: 0 };
            entries.contains_key(key) && entries[key] == value
        }),
{
    let item = item_v4(configs[c], protocol, j);
    let items = items_of_configs_v4(configs);
    assert(none_after_v4(false, configs, c, item)) by {
        assert forall|k: int| c < k < configs.len() implies !takes_port_out(
            #[trigger] configs[k],
            item.l4_protocol,
            item.lan_port,
            item.lan_ip,
        ) by {}
    }
    lemma_last_of_mappings_v4(false, configs, c, protocol, j);
    let i = choose|i: int|
        0 <= i < items.len() && (#[trigger] items[i]) == item && forall|k: int|
            i < k < items.len() ==> !same_way_v4(false, #[trigger] items[k], item);
    assert forall|k: int| i < k < items.len() implies !((#[trigger] items[k]).l4_protocol
        == items[i].l4_protocol && items[k].lan_port == items[i].lan_port && items[k].lan_ip
        == items[i].lan_ip) by {
        assert(!same_way_v4(false, items[k], item));
    }
    law_last_egress_wins_v4(items, i);
}

/// Whether an entry is one of the two that a mapping makes for a pair of ports.
pub open spec fn made_by_v4(
    c: RuntimeStaticNatMappingV4Config,
    pair: StaticMapPair,
    key: NatMappingKeyV4,
    value: Nat4StMappingValue,
) -> bool {
    &&& c.mapping_pair_ports@.contains(pair)
    &&& c.l4_protocols@.contains(key.l4proto)
    &&& match key.gress {
        Gress::Ingress => key.from_port == pair.wan_port && key.from_addr == 0 && value.port
            == pair.lan_port && value.addr == c.lan_ipv4.bits,
        Gress::Egress => key.from_port == pair.lan_port && key.from_addr == c.lan_ipv4.bits
            && value.port == pair.wan_port && value.addr == 0,
    }
}

proof fn lemma_mapping_of_item_v4(configs: Seq<RuntimeStaticNatMappingV4Config>, i: int) -> (r: (
    int,
    int,
))
    requires
        0 <= i < items_of_configs_v4(configs).len(),
    ensures
        ({
            let item = items_of_configs_v4(configs)[i];
            &&& 0 <= r.0 < configs.len()
            &&& 0 <= r.1 < configs[r.0].mapping_pair_ports@.len()
            &&& item == item_v4(configs[r.0], item.l4_protocol, r.1)
            &&& configs[r.0].l4_protocols@.contains(item.l4_protocol)
        }),
    decreases configs.len(),
{
    let last = configs.last();
    let less = configs.drop_last();
    let front = items_of_configs_v4(less);
    if i < front.len() {
        let r = lemma_mapping_of_item_v4(less, i);
        assert(less[r.0] == configs[r.0]);
        r
    } else {
        let back = items_of_protocols_v4(
            last.mapping_pair_ports@,
            last.lan_ipv4,
            last.l4_protocols@,
        );
        assert(items_of_configs_v4(configs)[i] == back[i - front.len()]);
        let j = lemma_pair_of_item_v4(last, last.l4_protocols@, i - front.len());
        (configs.len() - 1, j)
    }
}

/// Every IPv4 entry is one that some mapping makes for one of its pairs.
pub proof fn law_entries_come_from_mappings_v4(
    configs: Seq<RuntimeStaticNatMappingV4Config>,
    key: NatMappingKeyV4,
)
    requires
        entries_of_items_v4(items_of_configs_v4(configs)).contains_key(key),
    ensures
        exists|c: int, pair: StaticMapPair|
            0 <= c < configs.len() && #[trigger] made_by_v4(
                configs[c],
                pair,
                key,
                entries_of_items_v4(items_of_configs_v4(configs))[key],
            ),
{
    let items = items_of_configs_v4(configs);
    let value = entries_of_items_v4(items)[key];
    law_entries_come_from_items_v4(items, key);
    let i = choose|i: int|
        0 <= i < items.len() && (((#[trigger] items[i]).ingress_key() == key && value
            == items[i].ingress_value()) || (items[i].egress_key() == key && value
            == items[i].egress_value()));
    let (c, j) = lemma_mapping_of_item_v4(configs, i);
    let pair = configs[c].mapping_pair_ports@[j];
    assert(made_by_v4(configs[c], pair, key, value));
}

} // verus!

//! Whether static mappings and dynamic port ranges get in each other's way.
//! Both ends of a range count as inside.
use core::ops::Range;
use vstd::prelude::*;
use crate::natting::config::{NatConfig, NatServiceConfig};
use crate::natting::static_nat::StaticMapPair;
use crate::natting::static_nat_v4::StaticNatMappingV4Config;

verus! {

/// Whether an enabled mapping of the protocol has an outer port in the range.
pub open spec fn mapping_in_range(
    config: StaticNatMappingV4Config,
    proto: u8,
    range_start: u16,
    range_end: u16,
) -> bool {
    &&& config.enable
    &&& config.l4_protocols@.contains(proto)
    &&& exists|j: int|
        0 <= j < config.mapping_pair_ports@.len() && range_start <= (
        #[trigger] config.mapping_pair_ports@[j]).wan_port <= range_end
}

fn any_pair_in_range(pairs: &Vec<StaticMapPair>, range_start: u16, range_end: u16) -> (r: bool)
    ensures
        r == exists|j: int|
            0 <= j < pairs@.len() && range_start <= (#[trigger] pairs@[j]).wan_port <= range_end,
{
    let n: usize = pairs.len();
    for j in 0..n
        invariant
            n == pairs@.len(),
            forall|k: int|
                0 <= k < j ==> !(range_start <= (#[trigger] pairs@[k]).wan_port <= range_end),
    {
        let port: u16 = pairs[j].wan_port;
        if range_start <= port && port <= range_end {
            return true;
        }
    }
    false
}

fn lists_protocol(protocols: &Vec<u8>, proto: u8) -> (r: bool)
    ensures
        r == protocols@.contains(proto),
{
    let n: usize = protocols.len();
    for i in 0..n
        invariant
            n == protocols@.len(),
            forall|k: int| 0 <= k < i ==> protocols@[k] != proto,
    {
        if protocols[i] == proto {
            return true;
        }
    }
    false
}

/// Whether some enabled mapping of the protocol has an outer port in the range.
pub open spec fn any_mapping_in_range(
    configs: Seq<StaticNatMappingV4Config>,
    proto: u8,
    range_start: u16,
    range_end: u16,
) -> bool {
    exists|i: int|
        0 <= i < configs.len() && mapping_in_range(
            #[trigger] configs[i],
            proto,
            range_start,
            range_end,
        )
}

/// Whether some enabled mapping of the protocol has an outer port in the range.
pub fn has_static_port_in_dynamic_range(
    configs: &[StaticNatMappingV4Config],
    proto: u8,
    range_start: u16,
    range_end: u16,
) -> (r: bool)
    ensures
        r == any_mapping_in_range(configs@, proto, range_start, range_end),
{
    let n: usize = configs.len();
    for i in 0..n
        invariant
            n == configs@.len(),
            forall|k: int|
                0 <= k < i ==> !mapping_in_range(
                    #[trigger] configs@[k],
                    proto,
                    range_start,
                    range_end,
                ),
    {
        let config = &configs[i];
        if config.enable && lists_protocol(&config.l4_protocols, proto) && any_pair_in_range(
            &config.mapping_pair_ports,
            range_start,
            range_end,
        ) {
            assert(mapping_in_range(configs@[i as int], proto, range_start, range_end));
            return true;
        }
    }
    false
}

/// The range from which a protocol's ports are taken.
pub open spec fn dynamic_range(config: NatConfig, proto: u8) -> Option<Range<u16>> {
    if proto == 6 {
        Some(config.tcp_range)
    } else if proto == 17 {
        Some(config.udp_range)
    } else {
        None
    }
}

/// Whether an enabled service takes ports of the protocol from around `port`.
pub open spec fn port_taken(config: NatServiceConfig, proto: u8, port: u16) -> bool {
    &&& config.enable
    &&& dynamic_range(config.nat_config, proto) matches Some(range) && range.start <= port
        <= range.end
}

/// Whether some enabled service takes ports of the protocol from a range that
/// holds `port`.
pub open spec fn any_port_taken(configs: Seq<NatServiceConfig>, proto: u8, port: u16) -> bool {
    exists|i: int| 0 <= i < configs.len() && port_taken(#[trigger] configs[i], proto, port)
}

/// Whether some enabled service takes ports of the protocol from a range that
/// holds `port`.
pub fn is_port_in_dynamic_range(configs: &[NatServiceConfig], proto: u8, port: u16) -> (r: bool)
    ensures
        r == any_port_taken(configs@, proto, port),
{
    let n: usize = configs.len();
    for i in 0..n
        invariant
            n == configs@.len(),
            forall|k: int| 0 <= k < i ==> !port_taken(#[trigger] configs@[k], proto, port),
    {
        let config = &configs[i];
        if config.enable {
            let range = if proto == 6 {
                Some(&config.nat_config.tcp_range)
            } else if proto == 17 {
                Some(&config.nat_config.udp_range)
            } else {
                None
            };
            if let Some(range) = range {
                if range.start <= port && port <= range.end {
                    assert(port_taken(configs@[i as int], proto, port));
                    return true;
                }
            }
        }
    }
    false
}

/// The first service that is enabled.
pub open spec fn first_enabled(configs: Seq<NatServiceConfig>, i: int) -> Option<NatServiceConfig>
    decreases configs.len() - i,
{
    if i < 0 || i >= configs.len() {
        None
    } else if configs[i].enable {
        Some(configs[i])
    } else {
        first_enabled(configs, i + 1)
    }
}

pub fn find_active_nat_config(configs: &[NatServiceConfig]) -> (r: Option<&NatServiceConfig>)
    ensures
        r == match first_enabled(configs@, 0) {
            Some(c) => Some(&c),
            None => None,
        },
{
    let n: usize = configs.len();
    for i in 0..n
        invariant
            n == configs@.len(),
            first_enabled(configs@, 0) == first_enabled(configs@, i as int),
    {
        if configs[i].enable {
            return Some(&configs[i]);
        }
    }
    None
}

/// Whether a mapping's outer ports meet a range that an enabled service takes
/// ports of the same protocol from.
pub open spec fn conflicts_with(config: StaticNatMappingV4Config, service: NatServiceConfig) -> bool {
    exists|p: int, j: int|
        0 <= p < config.l4_protocols@.len() && 0 <= j < config.mapping_pair_ports@.len()
            && port_taken(
            service,
            #[trigger] config.l4_protocols@[p],
            (#[trigger] config.mapping_pair_ports@[j]).wan_port,
        )
}

/// Whether a mapping's outer ports meet a range that some enabled service
/// takes ports of the same protocol from.
pub open spec fn any_conflict(
    config: StaticNatMappingV4Config,
    services: Seq<NatServiceConfig>,
) -> bool {
    exists|i: int| 0 <= i < services.len() && conflicts_with(config, #[trigger] services[i])
}

/// Whether a mapping's outer ports meet a range that some enabled service
/// takes ports of the same protocol from.
pub fn has_dynamic_port_conflict(
    config: &StaticNatMappingV4Config,
    services: &[NatServiceConfig],
) -> (r: bool)
    ensures
        r == any_conflict(*config, services@),
{
    let n: usize = config.l4_protocols.len();
    let m: usize = config.mapping_pair_ports.len();
    for p in 0..n
        invariant
            n == config.l4_protocols@.len(),
            m == config.mapping_pair_ports@.len(),
            forall|q: int, k: int, i: int|
                0 <= q < p && 0 <= k < m && 0 <= i < services@.len() ==> !port_taken(
                    #[trigger] services@[i],
                    #[trigger] config.l4_protocols@[q],
                    (#[trigger] config.mapping_pair_ports@[k]).wan_port,
                ),
    {
        for j in 0..m
            invariant
                p < n,
                n == config.l4_protocols@.len(),
                m == config.mapping_pair_ports@.len(),
                forall|q: int, k: int, i: int|
                    (0 <= q < p && 0 <= k < m || q == p && 0 <= k < j) && 0 <= i < services@.len()
                        ==> !port_taken(
                        #[trigger] services@[i],
                        #[trigger] config.l4_protocols@[q],
                        (#[trigger] config.mapping_pair_ports@[k]).wan_port,
                    ),
        {
            if is_port_in_dynamic_range(
                services,
                config.l4_protocols[p],
                config.mapping_pair_ports[j].wan_port,
            ) {
                proof {
                    let i = choose|i: int|
                        0 <= i < services@.len() && port_taken(
                            #[trigger] services@[i],
                            config.l4_protocols@[p as int],
                            config.mapping_pair_ports@[j as int].wan_port,
                        );
                    assert(conflicts_with(*config, services@[i]));
                }
                return true;
            }
        }
    }
    false
}

/// A mapping that conflicts with no service stays clear of the ports from
/// which any enabled service takes its own.
pub proof fn law_no_conflict_is_clear(
    config: StaticNatMappingV4Config,
    services: Seq<NatServiceConfig>,
    port: u16,
    proto: u8,
)
    requires
        forall|i: int| 0 <= i < services.len() ==> !conflicts_with(config, #[trigger] services[i]),
        config.l4_protocols@.contains(proto),
        exists|j: int|
            0 <= j < config.mapping_pair_ports@.len() && (
            #[trigger] config.mapping_pair_ports@[j]).wan_port == port,
    ensures
        forall|i: int| 0 <= i < services.len() ==> !port_taken(#[trigger] services[i], proto, port),
{
    let p = choose|p: int| 0 <= p < config.l4_protocols@.len() && config.l4_protocols@[p] == proto;
    let j = choose|j: int|
        0 <= j < config.mapping_pair_ports@.len() && (
        #[trigger] config.mapping_pair_ports@[j]).wan_port == port;
    assert forall|i: int| 0 <= i < services.len() implies !port_taken(
        #[trigger] services[i],
        proto,
        port,
    ) by {
        if port_taken(services[i], proto, port) {
            assert(port_taken(
                services[i],
                config.l4_protocols@[p],
                config.mapping_pair_ports@[j].wan_port,
            ));
            assert(conflicts_with(config, services[i]));
        }
    }
}

/// A port is taken by a service that is enabled and has it, ends included, in
/// its range for TCP where the protocol is 6 or for UDP where it is 17; for no
/// other protocol are ports taken.
pub proof fn law_taken_ports(config: NatServiceConfig, proto: u8, port: u16)
    ensures
        !config.enable ==> !port_taken(config, proto, port),
        config.enable && proto == 6 ==> (port_taken(config, proto, port)
            <==> config.nat_config.tcp_range.start <= port <= config.nat_config.tcp_range.end),
        config.enable && proto == 17 ==> (port_taken(config, proto, port)
            <==> config.nat_config.udp_range.start <= port <= config.nat_config.udp_range.end),
        proto != 6 && proto != 17 ==> !port_taken(config, proto, port),
{
}

/// A mapping has a port in a range exactly where it is enabled, is for the
/// protocol, and one of its outer ports, ends included, lies there.
pub proof fn law_mapping_in_range(
    config: StaticNatMappingV4Config,
    proto: u8,
    j: int,
    range_start: u16,
    range_end: u16,
)
    requires
        0 <= j < config.mapping_pair_ports@.len(),
    ensures
        config.enable && config.l4_protocols@.contains(proto) && range_start
            <= config.mapping_pair_ports@[j].wan_port <= range_end ==> mapping_in_range(
            config,
            proto,
            range_start,
            range_end,
        ),
        !config.enable || !config.l4_protocols@.contains(proto) ==> !mapping_in_range(
            config,
            proto,
            range_start,
            range_end,
        ),
        (forall|k: int|
            0 <= k < config.mapping_pair_ports@.len() ==> (
            #[trigger] config.mapping_pair_ports@[k]).wan_port < range_start
                || config.mapping_pair_ports@[k].wan_port > range_end) ==> !mapping_in_range(
            config,
            proto,
            range_start,
            range_end,
        ),
{
}

/// The service in force is the first one that is enabled.
pub proof fn law_first_enabled_service(configs: Seq<NatServiceConfig>, i: int)
    requires
        0 <= i <= configs.len(),
        i < configs.len() ==> configs[i].enable,
        forall|k: int| 0 <= k < i ==> !(#[trigger] configs[k]).enable,
    ensures
        first_enabled(configs, 0) == if i < configs.len() {
            Some(configs[i])
        } else {
            None
        },
{
    lemma_first_enabled_from(configs, 0, i);
}

proof fn lemma_first_enabled_from(configs: Seq<NatServiceConfig>, from: int, i: int)
    requires
        0 <= from <= i <= configs.len(),
        forall|k: int| from <= k < i ==> !(#[trigger] configs[k]).enable,
    ensures
        first_enabled(configs, from) == first_enabled(configs, i),
    decreases i - from,
{
    if from < i {
        assert(!configs[from].enable);
        lemma_first_enabled_from(configs, from + 1, i);
    }
}

/// One service, or one mapping, is enough for a conflict, and without any that
/// takes part in it there is none: more of them never take a conflict away.
pub proof fn law_one_is_enough(
    services: Seq<NatServiceConfig>,
    service: NatServiceConfig,
    configs: Seq<StaticNatMappingV4Config>,
    config: StaticNatMappingV4Config,
    proto: u8,
    port: u16,
    range_end: u16,
)
    ensures
        !any_port_taken(Seq::empty(), proto, port),
        any_port_taken(services.push(service), proto, port) <==> any_port_taken(
            services,
            proto,
            port,
        ) || port_taken(service, proto, port),
        !any_mapping_in_range(Seq::empty(), proto, port, range_end),
        any_mapping_in_range(configs.push(config), proto, port, range_end)
            <==> any_mapping_in_range(configs, proto, port, range_end) || mapping_in_range(
            config,
            proto,
            port,
            range_end,
        ),
        !any_conflict(config, Seq::empty()),
        any_conflict(config, services.push(service)) <==> any_conflict(config, services)
            || conflicts_with(config, service),
{
    let more = services.push(service);
    let n = services.len() as int;
    assert(more[n] == service);
    assert forall|i: int| 0 <= i < n implies #[trigger] more[i] == services[i] by {}
    if any_port_taken(services, proto, port) {
        let i = choose|i: int| 0 <= i < n && port_taken(#[trigger] services[i], proto, port);
        assert(more[i] == services[i]);
    }
    if any_conflict(config, services) {
        let i = choose|i: int| 0 <= i < n && conflicts_with(config, #[trigger] services[i]);
        assert(more[i] == services[i]);
    }
    let longer = configs.push(config);
    let m = configs.len() as int;
    assert(longer[m] == config);
    if any_mapping_in_range(configs, proto, port, range_end) {
        let i = choose|i: int|
            0 <= i < m && mapping_in_range(#[trigger] configs[i], proto, port, range_end);
        assert(longer[i] == configs[i]);
    }
    if any_mapping_in_range(longer, proto, port, range_end) {
        let i = choose|i: int|
            0 <= i < longer.len() && mapping_in_range(
                #[trigger] longer[i],
                proto,
                port,
                range_end,
            );
        if i < m {
            assert(configs[i] == longer[i]);
        }
    }
}

/// A mapping conflicts with a service exactly where one of its outer ports is
/// taken there for one of its protocols.
pub proof fn law_what_a_conflict_is(
    config: StaticNatMappingV4Config,
    service: NatServiceConfig,
    p: int,
    j: int,
)
    ensures
        0 <= p < config.l4_protocols@.len() && 0 <= j < config.mapping_pair_ports@.len()
            && port_taken(
            service,
            config.l4_protocols@[p],
            config.mapping_pair_ports@[j].wan_port,
        ) ==> conflicts_with(config, service),
        !service.enable ==> !conflicts_with(config, service),
        (forall|q: int, k: int|
            0 <= q < config.l4_protocols@.len() && 0 <= k < config.mapping_pair_ports@.len()
                ==> !port_taken(
                service,
                #[trigger] config.l4_protocols@[q],
                (#[trigger] config.mapping_pair_ports@[k]).wan_port,
            )) ==> !conflicts_with(config, service),
{
}

} // verus!

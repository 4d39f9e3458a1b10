//! What static mappings lead to at run time: targets resolved to addresses
//! with what is known of enrolled devices and of the LAN's IPv6 prefixes.
use std::collections::HashMap;
use vstd::prelude::*;
use crate::device::EnrolledDevice;
use crate::ids::{is_nil_id, ConfigId};
use crate::lan_ipv6::config::LanIPv6ServiceConfigV2;
use crate::lan_ipv6::prefix_group::{LanPrefixGroupConfig, PrefixParentSource};
use crate::lan_ipv6::subnet::{
    checked_allocate_subnet, checked_combine_ipv6_prefix_suffix, has_subnet, spec_allocate,
    spec_combine,
};
use crate::name_map::NameMap;
use crate::natting::error::StaticNatError;
use crate::natting::static_nat::{
    RuntimeStaticNatMappingConfig, StaticNatMappingConfig, StaticNatTarget,
};
use crate::natting::static_nat_v4::{
    RuntimeStaticNatMappingV4Config, StaticNatMappingV4Config, StaticNatV4Target,
};
use crate::natting::static_nat_v6::{
    RuntimeStaticNatMappingV6Config, StaticNatMappingV6Config, StaticNatV6Target,
};
use crate::net::{Ipv4Addr, Ipv6Addr};

verus! {

broadcast use vstd::std_specs::hash::group_hash_axioms;

pub type DeviceMap = HashMap<ConfigId, EnrolledDevice>;

pub type LanConfigMap = NameMap<LanIPv6ServiceConfigV2>;

/// The first group that assigns addresses.
pub open spec fn first_na_group(groups: Seq<LanPrefixGroupConfig>, i: int) -> Option<
    LanPrefixGroupConfig,
>
    decreases groups.len() - i,
{
    if i < 0 || i >= groups.len() {
        None
    } else if groups[i].na is Some {
        Some(groups[i])
    } else {
        first_na_group(groups, i + 1)
    }
}

fn select_device_ipv6_group(groups: &[LanPrefixGroupConfig]) -> (r: Option<&LanPrefixGroupConfig>)
    ensures
        match first_na_group(groups@, 0) {
            Some(g) => r is Some && *r->0 == g && g.na is Some,
            None => r is None,
        },
{
    let n: usize = groups.len();
    for i in 0..n
        invariant
            n == groups@.len(),
            first_na_group(groups@, 0) == first_na_group(groups@, i as int),
    {
        if groups[i].na.is_some() {
            return Some(&groups[i]);
        }
    }
    None
}

/// The IPv6 address under which a device is reached, or why there is none:
/// behind a static parent its host part in the subnet from which the
/// interface assigns addresses, behind a delegated one the address as it is.
pub open spec fn device_ipv6(
    device: EnrolledDevice,
    lan: Map<Seq<char>, LanIPv6ServiceConfigV2>,
) -> Result<Ipv6Addr, Seq<char>> {
    if device.ipv6 is None {
        Err("device has no IPv6 address"@)
    } else if device.iface_name is None {
        Err("device has no interface name"@)
    } else {
        let iface = device.iface_name->0@;
        if !lan.contains_key(iface) {
            Err("no LAN IPv6 service config for interface '"@ + iface + "'"@)
        } else {
            match first_na_group(lan[iface].config.prefix_groups@, 0) {
                None => Err("no NA prefix group configured on interface '"@ + iface + "'"@),
                Some(group) => match group.parent {
                    PrefixParentSource::Pd { .. } => Ok(device.ipv6->0),
                    PrefixParentSource::Static { base_prefix, parent_prefix_len } => {
                        let index = group.na->0.pool_index as u128;
                        if has_subnet(parent_prefix_len, 64, index) {
                            Ok(
                                spec_combine(
                                    spec_allocate(base_prefix, parent_prefix_len, 64, index).0,
                                    64,
                                    device.ipv6->0,
                                ),
                            )
                        } else {
                            Err(
                                "failed to allocate subnet for NA pool on interface '"@ + iface
                                    + "'"@,
                            )
                        }
                    },
                },
            }
        }
    }
}

/// A result with its error as text.
pub open spec fn outcome(r: Result<Ipv6Addr, String>) -> Result<Ipv6Addr, Seq<char>> {
    match r {
        Ok(ip) => Ok(ip),
        Err(e) => Err(e@),
    }
}

pub fn resolve_device_ipv6(device: &EnrolledDevice, lan_ipv6_configs: &LanConfigMap) -> (r: Result<
    Ipv6Addr,
    String,
>)
    ensures
        outcome(r) == device_ipv6(*device, lan_ipv6_configs@),
{
    let ipv6 = match device.ipv6 {
        Some(ip) => ip,
        None => {
            return Err("device has no IPv6 address".to_owned());
        },
    };
    let iface_name = match &device.iface_name {
        Some(name) => name,
        None => {
            return Err("device has no interface name".to_owned());
        },
    };
    let config = match lan_ipv6_configs.get(iface_name) {
        Some(config) => config,
        None => {
            return Err(
                "no LAN IPv6 service config for interface '".to_owned().concat(iface_name).concat(
                    "'",
                ),
            );
        },
    };
    let group = match select_device_ipv6_group(&config.config.prefix_groups) {
        Some(group) => group,
        None => {
            return Err(
                "no NA prefix group configured on interface '".to_owned().concat(iface_name).concat(
                    "'",
                ),
            );
        },
    };
    match &group.parent {
        PrefixParentSource::Pd { .. } => Ok(ipv6),
        PrefixParentSource::Static { base_prefix, parent_prefix_len } => {
            let pool_index: u32 = match &group.na {
                Some(na) => na.pool_index,
                None => 0,
            };
            let allocated = checked_allocate_subnet(
                *base_prefix,
                *parent_prefix_len,
                64,
                pool_index as u128,
            );
            if let Some((prefix, _)) = allocated {
                if let Some(ip) = checked_combine_ipv6_prefix_suffix(prefix, 64, ipv6) {
                    return Ok(ip);
                }
            }
            Err(
                "failed to allocate subnet for NA pool on interface '".to_owned().concat(
                    iface_name,
                ).concat("'"),
            )
        },
    }
}

/// The addresses that a mapping's target stands for.
pub open spec fn target_addresses(
    target: Option<StaticNatTarget>,
    devices: Map<ConfigId, EnrolledDevice>,
    lan: Map<Seq<char>, LanIPv6ServiceConfigV2>,
) -> (Option<Ipv4Addr>, Option<Ipv6Addr>) {
    match target {
        Some(StaticNatTarget::Address { ipv4, ipv6 }) => (ipv4, ipv6),
        Some(StaticNatTarget::Local) => (Some(Ipv4Addr { bits: 0 }), Some(Ipv6Addr { bits: 0 })),
        Some(StaticNatTarget::Device { device_id }) => if devices.contains_key(device_id) {
            (
                devices[device_id].ipv4,
                match device_ipv6(devices[device_id], lan) {
                    Ok(ip) => Some(ip),
                    Err(_) => None,
                },
            )
        } else {
            (None, None)
        },
        None => (None, None),
    }
}

pub fn resolve_static_nat_target(
    config: &StaticNatMappingConfig,
    devices: &DeviceMap,
    lan_ipv6_configs: &LanConfigMap,
) -> (r: (Option<Ipv4Addr>, Option<Ipv6Addr>))
    ensures
        r == target_addresses(config.lan_target, devices@, lan_ipv6_configs@),
{
    match &config.lan_target {
        Some(StaticNatTarget::Address { ipv4, ipv6 }) => (*ipv4, *ipv6),
        Some(StaticNatTarget::Local) => (Some(Ipv4Addr { bits: 0 }), Some(Ipv6Addr { bits: 0 })),
        Some(StaticNatTarget::Device { device_id }) => {
            match devices.get(device_id) {
                Some(device) => {
                    let ipv6 = match resolve_device_ipv6(device, lan_ipv6_configs) {
                        Ok(ip) => Some(ip),
                        Err(_) => None,
                    };
                    (device.ipv4, ipv6)
                },
                None => (None, None),
            }
        },
        None => (None, None),
    }
}

/// A mapping with its target resolved.
pub open spec fn runtime_of(
    config: StaticNatMappingConfig,
    devices: Map<ConfigId, EnrolledDevice>,
    lan: Map<Seq<char>, LanIPv6ServiceConfigV2>,
) -> RuntimeStaticNatMappingConfig {
    RuntimeStaticNatMappingConfig {
        mapping_pair_ports: config.mapping_pair_ports,
        lan_ipv4: target_addresses(config.lan_target, devices, lan).0,
        lan_ipv6: target_addresses(config.lan_target, devices, lan).1,
        ipv4_l4_protocol: config.ipv4_l4_protocol,
        ipv6_l4_protocol: config.ipv6_l4_protocol,
    }
}

pub fn resolve_static_nat_mapping_config(
    config: StaticNatMappingConfig,
    devices: &DeviceMap,
    lan_ipv6_configs: &LanConfigMap,
) -> (r: RuntimeStaticNatMappingConfig)
    ensures
        r == runtime_of(config, devices@, lan_ipv6_configs@),
{
    let (lan_ipv4, lan_ipv6) = resolve_static_nat_target(&config, devices, lan_ipv6_configs);
    RuntimeStaticNatMappingConfig {
        mapping_pair_ports: config.mapping_pair_ports,
        lan_ipv4,
        lan_ipv6,
        ipv4_l4_protocol: config.ipv4_l4_protocol,
        ipv6_l4_protocol: config.ipv6_l4_protocol,
    }
}

/// The enabled mappings with their targets resolved, in order.
pub open spec fn runtime_configs(
    configs: Seq<StaticNatMappingConfig>,
    devices: Map<ConfigId, EnrolledDevice>,
    lan: Map<Seq<char>, LanIPv6ServiceConfigV2>,
) -> Seq<RuntimeStaticNatMappingConfig>
    decreases configs.len(),
{
    if configs.len() == 0 {
        Seq::empty()
    } else {
        let before = runtime_configs(configs.drop_last(), devices, lan);
        if configs.last().enable {
            before.push(runtime_of(configs.last(), devices, lan))
        } else {
            before
        }
    }
}

pub fn list_runtime_configs(
    configs: Vec<StaticNatMappingConfig>,
    devices: &DeviceMap,
    lan_ipv6_configs: &LanConfigMap,
) -> (r: Vec<RuntimeStaticNatMappingConfig>)
    ensures
        r@ == runtime_configs(configs@, devices@, lan_ipv6_configs@),
{
    let ghost all = configs@;
    let mut result: Vec<RuntimeStaticNatMappingConfig> = Vec::new();
    assert(all.take(0) =~= Seq::empty());
    for config in it: configs
        invariant
            it.seq() == all,
            result@ == runtime_configs(all.take(it.index() as int), devices@, lan_ipv6_configs@),
    {
        assert(all.take(it.index() as int + 1).drop_last() =~= all.take(it.index() as int));
        if config.enable {
            result.push(resolve_static_nat_mapping_config(config, devices, lan_ipv6_configs));
        }
    }
    assert(all.take(all.len() as int) =~= all);
    result
}

/// The address that an IPv4 mapping's target stands for.
pub open spec fn target_ipv4(
    target: Option<StaticNatV4Target>,
    devices: Map<ConfigId, EnrolledDevice>,
) -> Option<Ipv4Addr> {
    match target {
        Some(StaticNatV4Target::Address { ipv4 }) => Some(ipv4),
        Some(StaticNatV4Target::Local) => Some(Ipv4Addr { bits: 0 }),
        Some(StaticNatV4Target::Device { device_id }) => if devices.contains_key(device_id) {
            devices[device_id].ipv4
        } else {
            None
        },
        None => None,
    }
}

pub fn resolve_static_nat_v4_target(config: &StaticNatMappingV4Config, devices: &DeviceMap) -> (r:
    Option<Ipv4Addr>)
    ensures
        r == target_ipv4(config.lan_target, devices@),
{
    match &config.lan_target {
        Some(StaticNatV4Target::Address { ipv4 }) => Some(*ipv4),
        Some(StaticNatV4Target::Local) => Some(Ipv4Addr { bits: 0 }),
        Some(StaticNatV4Target::Device { device_id }) => {
            match devices.get(device_id) {
                Some(device) => device.ipv4,
                None => None,
            }
        },
        None => None,
    }
}

/// An IPv4 mapping with its target resolved, where it can be.
pub open spec fn runtime_v4_of(
    config: StaticNatMappingV4Config,
    devices: Map<ConfigId, EnrolledDevice>,
) -> Option<RuntimeStaticNatMappingV4Config> {
    match target_ipv4(config.lan_target, devices) {
        Some(lan_ipv4) => Some(
            RuntimeStaticNatMappingV4Config {
                mapping_pair_ports: config.mapping_pair_ports,
                lan_ipv4,
                l4_protocols: config.l4_protocols,
            },
        ),
        None => None,
    }
}

pub fn resolve_static_nat_mapping_v4_config(
    config: StaticNatMappingV4Config,
    devices: &DeviceMap,
) -> (r: Option<RuntimeStaticNatMappingV4Config>)
    ensures
        r == runtime_v4_of(config, devices@),
{
    match resolve_static_nat_v4_target(&config, devices) {
        Some(lan_ipv4) => Some(
            RuntimeStaticNatMappingV4Config {
                mapping_pair_ports: config.mapping_pair_ports,
                lan_ipv4,
                l4_protocols: config.l4_protocols,
            },
        ),
        None => None,
    }
}

/// The enabled IPv4 mappings whose targets can be resolved, in order.
pub open spec fn runtime_v4_configs(
    configs: Seq<StaticNatMappingV4Config>,
    devices: Map<ConfigId, EnrolledDevice>,
) -> Seq<RuntimeStaticNatMappingV4Config>
    decreases configs.len(),
{
    if configs.len() == 0 {
        Seq::empty()
    } else {
        let before = runtime_v4_configs(configs.drop_last(), devices);
        if configs.last().enable {
            match runtime_v4_of(configs.last(), devices) {
                Some(c) => before.push(c),
                None => before,
            }
        } else {
            before
        }
    }
}

pub fn list_runtime_configs_v4(configs: Vec<StaticNatMappingV4Config>, devices: &DeviceMap) -> (r:
    Vec<RuntimeStaticNatMappingV4Config>)
    ensures
        r@ == runtime_v4_configs(configs@, devices@),
{
    let ghost all = configs@;
    let mut result: Vec<RuntimeStaticNatMappingV4Config> = Vec::new();
    assert(all.take(0) =~= Seq::empty());
    for config in it: configs
        invariant
            it.seq() == all,
            result@ == runtime_v4_configs(all.take(it.index() as int), devices@),
    {
        assert(all.take(it.index() as int + 1).drop_last() =~= all.take(it.index() as int));
        if config.enable {
            if let Some(resolved) = resolve_static_nat_mapping_v4_config(config, devices) {
                result.push(resolved);
            }
        }
    }
    assert(all.take(all.len() as int) =~= all);
    result
}

/// The addresses of those devices that are known and can be reached, in order.
pub open spec fn devices_ipv6(
    ids: Seq<ConfigId>,
    devices: Map<ConfigId, EnrolledDevice>,
    lan: Map<Seq<char>, LanIPv6ServiceConfigV2>,
) -> Seq<Ipv6Addr>
    decreases ids.len(),
{
    if ids.len() == 0 {
        Seq::empty()
    } else {
        let before = devices_ipv6(ids.drop_last(), devices, lan);
        if devices.contains_key(ids.last()) {
            match device_ipv6(devices[ids.last()], lan) {
                Ok(ip) => before.push(ip),
                Err(_) => before,
            }
        } else {
            before
        }
    }
}

/// The addresses that an IPv6 mapping's target stands for.
pub open spec fn targets_ipv6(
    target: Option<StaticNatV6Target>,
    devices: Map<ConfigId, EnrolledDevice>,
    lan: Map<Seq<char>, LanIPv6ServiceConfigV2>,
) -> Seq<Ipv6Addr> {
    match target {
        Some(StaticNatV6Target::Address { ipv6 }) => seq![ipv6],
        Some(StaticNatV6Target::Local) => seq![Ipv6Addr { bits: 0 }],
        Some(StaticNatV6Target::Device { device_ids }) => devices_ipv6(device_ids@, devices, lan),
        None => Seq::empty(),
    }
}

pub fn resolve_static_nat_v6_targets(
    config: &StaticNatMappingV6Config,
    devices: &DeviceMap,
    lan_ipv6_configs: &LanConfigMap,
) -> (r: Vec<Ipv6Addr>)
    ensures
        r@ == targets_ipv6(config.lan_target, devices@, lan_ipv6_configs@),
{
    let mut result: Vec<Ipv6Addr> = Vec::new();
    match &config.lan_target {
        Some(StaticNatV6Target::Address { ipv6 }) => {
            result.push(*ipv6);
            assert(result@ =~= seq![*ipv6]);
        },
        Some(StaticNatV6Target::Local) => {
            result.push(Ipv6Addr { bits: 0 });
            assert(result@ =~= seq![Ipv6Addr { bits: 0 }]);
        },
        Some(StaticNatV6Target::Device { device_ids }) => {
            let n: usize = device_ids.len();
            let ghost ids = device_ids@;
            assert(ids.take(0) =~= Seq::empty());
            for i in 0..n
                invariant
                    n == ids.len(),
                    ids == device_ids@,
                    result@ == devices_ipv6(ids.take(i as int), devices@, lan_ipv6_configs@),
            {
                assert(ids.take(i + 1).drop_last() =~= ids.take(i as int));
                if let Some(device) = devices.get(&device_ids[i]) {
                    if let Ok(ip) = resolve_device_ipv6(device, lan_ipv6_configs) {
                        result.push(ip);
                    }
                }
            }
            assert(ids.take(n as int) =~= ids);
        },
        None => {},
    }
    result
}

/// What an IPv6 mapping at run time says.
pub struct RuntimeV6View {
    pub ports: Option<Seq<u16>>,
    pub lan_ipv6: Ipv6Addr,
    pub l4_protocols: Seq<u8>,
}

impl View for RuntimeStaticNatMappingV6Config {
    type V = RuntimeV6View;

    open spec fn view(&self) -> RuntimeV6View {
        RuntimeV6View {
            ports: self.port_config@,
            lan_ipv6: self.lan_ipv6,
            l4_protocols: self.l4_protocols@,
        }
    }
}

pub open spec fn runtime_v6_views(v: Seq<RuntimeStaticNatMappingV6Config>) -> Seq<RuntimeV6View> {
    v.map_values(|c: RuntimeStaticNatMappingV6Config| c@)
}

/// An IPv6 mapping once for each address that its target stands for.
pub open spec fn runtime_v6_of(
    config: StaticNatMappingV6Config,
    devices: Map<ConfigId, EnrolledDevice>,
    lan: Map<Seq<char>, LanIPv6ServiceConfigV2>,
) -> Seq<RuntimeV6View> {
    targets_ipv6(config.lan_target, devices, lan).map_values(
        |ip: Ipv6Addr|
            RuntimeV6View {
                ports: config.port_config@,
                lan_ipv6: ip,
                l4_protocols: config.l4_protocols@,
            },
    )
}

pub fn resolve_static_nat_mapping_v6_configs(
    config: &StaticNatMappingV6Config,
    devices: &DeviceMap,
    lan_ipv6_configs: &LanConfigMap,
) -> (r: Vec<RuntimeStaticNatMappingV6Config>)
    ensures
        runtime_v6_views(r@) == runtime_v6_of(*config, devices@, lan_ipv6_configs@),
{
    let targets = resolve_static_nat_v6_targets(config, devices, lan_ipv6_configs);
    let mut result: Vec<RuntimeStaticNatMappingV6Config> = Vec::new();
    let n: usize = targets.len();
    let ghost whole = runtime_v6_of(*config, devices@, lan_ipv6_configs@);
    assert(runtime_v6_views(result@) =~= whole.take(0));
    for i in 0..n
        invariant
            n == targets@.len(),
            targets@ == targets_ipv6(config.lan_target, devices@, lan_ipv6_configs@),
            whole == runtime_v6_of(*config, devices@, lan_ipv6_configs@),
            runtime_v6_views(result@) == whole.take(i as int),
    {
        let l4_protocols = config.l4_protocols.clone();
        assert(l4_protocols@ =~= config.l4_protocols@);
        let ghost before = result@;
        result.push(
            RuntimeStaticNatMappingV6Config {
                port_config: config.port_config.clone(),
                lan_ipv6: targets[i],
                l4_protocols,
            },
        );
        assert(runtime_v6_views(result@) =~= runtime_v6_views(before).push(whole[i as int]));
        assert(whole.take(i + 1) =~= whole.take(i as int).push(whole[i as int]));
    }
    assert(whole.take(n as int) =~= whole);
    result
}

/// The enabled IPv6 mappings, once for each address, in order.
pub open spec fn runtime_v6_configs(
    configs: Seq<StaticNatMappingV6Config>,
    devices: Map<ConfigId, EnrolledDevice>,
    lan: Map<Seq<char>, LanIPv6ServiceConfigV2>,
) -> Seq<RuntimeV6View>
    decreases configs.len(),
{
    if configs.len() == 0 {
        Seq::empty()
    } else {
        let before = runtime_v6_configs(configs.drop_last(), devices, lan);
        if configs.last().enable {
            before + runtime_v6_of(configs.last(), devices, lan)
        } else {
            before
        }
    }
}

pub fn list_runtime_configs_v6(
    configs: &[StaticNatMappingV6Config],
    devices: &DeviceMap,
    lan_ipv6_configs: &LanConfigMap,
) -> (r: Vec<RuntimeStaticNatMappingV6Config>)
    ensures
        runtime_v6_views(r@) == runtime_v6_configs(configs@, devices@, lan_ipv6_configs@),
{
    let mut result: Vec<RuntimeStaticNatMappingV6Config> = Vec::new();
    let n: usize = configs.len();
    let ghost all = configs@;
    assert(all.take(0) =~= Seq::empty());
    assert(runtime_v6_views(result@) =~= Seq::empty());
    for i in 0..n
        invariant
            n == all.len(),
            all == configs@,
            runtime_v6_views(result@) == runtime_v6_configs(
                all.take(i as int),
                devices@,
                lan_ipv6_configs@,
            ),
    {
        assert(all.take(i + 1).drop_last() =~= all.take(i as int));
        if configs[i].enable {
            let mut part = resolve_static_nat_mapping_v6_configs(
                &configs[i],
                devices,
                lan_ipv6_configs,
            );
            let ghost before = result@;
            let ghost added = part@;
            result.append(&mut part);
            assert(runtime_v6_views(before + added) =~= runtime_v6_views(before) + runtime_v6_views(
                added,
            ));
        }
    }
    assert(all.take(n as int) =~= all);
    result
}

/// Adds an identifier that is not there yet.
fn add_id(ids: &mut Vec<ConfigId>, id: ConfigId)
    requires
        old(ids)@.no_duplicates(),
    ensures
        final(ids)@.no_duplicates(),
        forall|x: ConfigId| #[trigger] final(ids)@.contains(x) <==> old(ids)@.contains(x) || x == id,
{
    let n: usize = ids.len();
    for i in 0..n
        invariant
            n == ids@.len(),
            ids@ == old(ids)@,
            ids@.no_duplicates(),
            forall|k: int| 0 <= k < i ==> ids@[k] != id,
    {
        if ids[i] == id {
            assert(ids@.contains(id));
            return ;
        }
    }
    ids.push(id);
    assert forall|x: ConfigId| #[trigger] ids@.contains(x) <==> old(ids)@.contains(x) || x == id by {
        if old(ids)@.contains(x) {
            let k = choose|k: int| 0 <= k < old(ids)@.len() && old(ids)@[k] == x;
            assert(ids@[k] == x);
        }
        if x == id {
            assert(ids@[n as int] == x);
        }
    }
}

/// Whether some mapping leads to the device.
pub open spec fn refers_to(configs: Seq<StaticNatMappingConfig>, id: ConfigId) -> bool {
    exists|i: int|
        0 <= i < configs.len() && (#[trigger] configs[i]).lan_target == Some(
            StaticNatTarget::Device { device_id: id },
        )
}

/// The devices that some mapping leads to, each once.
pub fn device_ids_for_configs(configs: &[StaticNatMappingConfig]) -> (r: Vec<ConfigId>)
    ensures
        r@.no_duplicates(),
        forall|id: ConfigId| #[trigger] r@.contains(id) <==> refers_to(configs@, id),
{
    let mut ids: Vec<ConfigId> = Vec::new();
    let n: usize = configs.len();
    for i in 0..n
        invariant
            n == configs@.len(),
            ids@.no_duplicates(),
            forall|id: ConfigId| #[trigger]
                ids@.contains(id) <==> exists|k: int|
                    0 <= k < i && (#[trigger] configs@[k]).lan_target == Some(
                        StaticNatTarget::Device { device_id: id },
                    ),
    {
        if let Some(StaticNatTarget::Device { device_id }) = &configs[i].lan_target {
            add_id(&mut ids, *device_id);
        }
    }
    ids
}

/// Whether some IPv4 mapping leads to the device.
pub open spec fn refers_to_v4(configs: Seq<StaticNatMappingV4Config>, id: ConfigId) -> bool {
    exists|i: int|
        0 <= i < configs.len() && (#[trigger] configs[i]).lan_target == Some(
            StaticNatV4Target::Device { device_id: id },
        )
}

/// The devices that some IPv4 mapping leads to, each once.
pub fn device_ids_for_configs_v4(configs: &[StaticNatMappingV4Config]) -> (r: Vec<ConfigId>)
    ensures
        r@.no_duplicates(),
        forall|id: ConfigId| #[trigger] r@.contains(id) <==> refers_to_v4(configs@, id),
{
    let mut ids: Vec<ConfigId> = Vec::new();
    let n: usize = configs.len();
    for i in 0..n
        invariant
            n == configs@.len(),
            ids@.no_duplicates(),
            forall|id: ConfigId| #[trigger]
                ids@.contains(id) <==> exists|k: int|
                    0 <= k < i && (#[trigger] configs@[k]).lan_target == Some(
                        StaticNatV4Target::Device { device_id: id },
                    ),
    {
        if let Some(StaticNatV4Target::Device { device_id }) = &configs[i].lan_target {
            add_id(&mut ids, *device_id);
        }
    }
    ids
}

/// The devices that a target names.
pub open spec fn target_devices_v6(target: Option<StaticNatV6Target>) -> Seq<ConfigId> {
    match target {
        Some(StaticNatV6Target::Device { device_ids }) => device_ids@,
        _ => Seq::empty(),
    }
}

/// Whether some IPv6 mapping leads to the device.
pub open spec fn refers_to_v6(configs: Seq<StaticNatMappingV6Config>, id: ConfigId) -> bool {
    exists|i: int|
        0 <= i < configs.len() && target_devices_v6((#[trigger] configs[i]).lan_target).contains(id)
}

/// The devices that some IPv6 mapping leads to, each once.
pub fn device_ids_for_configs_v6(configs: &[StaticNatMappingV6Config]) -> (r: Vec<ConfigId>)
    ensures
        r@.no_duplicates(),
        forall|id: ConfigId| #[trigger] r@.contains(id) <==> refers_to_v6(configs@, id),
{
    let mut ids: Vec<ConfigId> = Vec::new();
    let n: usize = configs.len();
    for i in 0..n
        invariant
            n == configs@.len(),
            ids@.no_duplicates(),
            forall|id: ConfigId| #[trigger]
                ids@.contains(id) <==> exists|k: int|
                    0 <= k < i && target_devices_v6(
                        (#[trigger] configs@[k]).lan_target,
                    ).contains(id),
    {
        let ghost before = ids@;
        if let Some(StaticNatV6Target::Device { device_ids }) = &configs[i].lan_target {
            let m: usize = device_ids.len();
            assert(target_devices_v6(configs@[i as int].lan_target) == device_ids@);
            for j in 0..m
                invariant
                    m == device_ids@.len(),
                    ids@.no_duplicates(),
                    forall|id: ConfigId| #[trigger]
                        ids@.contains(id) <==> before.contains(id) || exists|k: int|
                            0 <= k < j && #[trigger] device_ids@[k] == id,
            {
                add_id(&mut ids, device_ids[j]);
            }
        }
        assert forall|id: ConfigId| #[trigger]
            ids@.contains(id) <==> before.contains(id) || target_devices_v6(
                configs@[i as int].lan_target,
            ).contains(id) by {
            let own = target_devices_v6(configs@[i as int].lan_target);
            if own.contains(id) {
                let k = choose|k: int| 0 <= k < own.len() && own[k] == id;
                assert(own[k] == id);
            }
        }
    }
    ids
}

/// What is wrong with the device behind an enabled mapping.
pub open spec fn device_target_fault(
    config: StaticNatMappingConfig,
    devices: Map<ConfigId, EnrolledDevice>,
) -> Option<StaticNatError> {
    match config.lan_target {
        Some(StaticNatTarget::Device { device_id }) => if device_id == 0 || !config.enable {
            None
        } else if !devices.contains_key(device_id) {
            Some(StaticNatError::DeviceNotFound(device_id))
        } else if config.ipv4_l4_protocol@.len() > 0 && devices[device_id].ipv4 is None {
            Some(StaticNatError::DeviceMissingIpv4(device_id))
        } else if config.ipv6_l4_protocol@.len() > 0 && devices[device_id].ipv6 is None {
            Some(StaticNatError::DeviceMissingIpv6(device_id))
        } else {
            None
        },
        _ => None,
    }
}

pub fn validate_runtime_target(config: &StaticNatMappingConfig, devices: &DeviceMap) -> (r: Result<
    (),
    StaticNatError,
>)
    ensures
        r == match device_target_fault(*config, devices@) {
            Some(e) => Err(e),
            None => Ok::<(), StaticNatError>(()),
        },
{
    if let Some(StaticNatTarget::Device { device_id }) = &config.lan_target {
        if !is_nil_id(*device_id) && config.enable {
            match devices.get(device_id) {
                None => {
                    return Err(StaticNatError::DeviceNotFound(*device_id));
                },
                Some(device) => {
                    if config.ipv4_l4_protocol.len() > 0 && device.ipv4.is_none() {
                        return Err(StaticNatError::DeviceMissingIpv4(*device_id));
                    }
                    if config.ipv6_l4_protocol.len() > 0 && device.ipv6.is_none() {
                        return Err(StaticNatError::DeviceMissingIpv6(*device_id));
                    }
                },
            }
        }
    }
    Ok(())
}

/// Whether an enabled mapping with protocols leads to no IPv4 address.
pub open spec fn unreachable_v4(
    config: StaticNatMappingV4Config,
    devices: Map<ConfigId, EnrolledDevice>,
) -> bool {
    config.enable && config.l4_protocols@.len() > 0 && target_ipv4(config.lan_target, devices)
        is None
}

pub fn validate_runtime_target_v4(config: &StaticNatMappingV4Config, devices: &DeviceMap) -> (r:
    Result<(), StaticNatError>)
    ensures
        if unreachable_v4(*config, devices@) {
            r matches Err(StaticNatError::InvalidTarget(why)) && why@
                == "enabled IPv4 static NAT mapping must resolve to an IPv4 target"@
        } else {
            r is Ok
        },
{
    let lan_ipv4 = resolve_static_nat_v4_target(config, devices);
    if config.enable && config.l4_protocols.len() > 0 && lan_ipv4.is_none() {
        return Err(
            StaticNatError::InvalidTarget(
                "enabled IPv4 static NAT mapping must resolve to an IPv4 target".to_owned(),
            ),
        );
    }
    Ok(())
}

/// The first device from number `i` on that is not known or has no IPv6 address.
pub open spec fn devices_fault(
    ids: Seq<ConfigId>,
    devices: Map<ConfigId, EnrolledDevice>,
    i: int,
) -> Option<StaticNatError>
    decreases ids.len() - i,
{
    if i < 0 || i >= ids.len() {
        None
    } else if ids[i] != 0 && !devices.contains_key(ids[i]) {
        Some(StaticNatError::DeviceNotFound(ids[i]))
    } else if ids[i] != 0 && devices[ids[i]].ipv6 is None {
        Some(StaticNatError::DeviceMissingIpv6(ids[i]))
    } else {
        devices_fault(ids, devices, i + 1)
    }
}

/// What is wrong with the devices that an enabled mapping with protocols leads
/// to.
pub open spec fn targets_fault_v6(
    config: StaticNatMappingV6Config,
    devices: Map<ConfigId, EnrolledDevice>,
) -> Option<StaticNatError> {
    if config.enable && config.l4_protocols@.len() > 0 {
        devices_fault(target_devices_v6(config.lan_target), devices, 0)
    } else {
        None
    }
}

pub fn validate_runtime_target_v6(config: &StaticNatMappingV6Config, devices: &DeviceMap) -> (r:
    Result<(), StaticNatError>)
    ensures
        r == match targets_fault_v6(*config, devices@) {
            Some(e) => Err(e),
            None => Ok::<(), StaticNatError>(()),
        },
{
    if let Some(StaticNatV6Target::Device { device_ids }) = &config.lan_target {
        if config.enable && config.l4_protocols.len() > 0 {
            let n: usize = device_ids.len();
            for i in 0..n
                invariant
                    n == device_ids@.len(),
                    config.enable && config.l4_protocols@.len() > 0,
                    target_devices_v6(config.lan_target) == device_ids@,
                    devices_fault(device_ids@, devices@, 0) == devices_fault(
                        device_ids@,
                        devices@,
                        i as int,
                    ),
            {
                let device_id: ConfigId = device_ids[i];
                if !is_nil_id(device_id) {
                    match devices.get(&device_id) {
                        None => {
                            return Err(StaticNatError::DeviceNotFound(device_id));
                        },
                        Some(device) => {
                            if device.ipv6.is_none() {
                                return Err(StaticNatError::DeviceMissingIpv6(device_id));
                            }
                        },
                    }
                }
            }
        }
    }
    Ok(())
}

/// The devices by their identifiers; a later one replaces an earlier one.
pub open spec fn devices_by_id(devices: Seq<EnrolledDevice>) -> Map<ConfigId, EnrolledDevice>
    decreases devices.len(),
{
    if devices.len() == 0 {
        Map::empty()
    } else {
        devices_by_id(devices.drop_last()).insert(devices.last().id, devices.last())
    }
}

pub fn index_devices(devices: Vec<EnrolledDevice>) -> (r: DeviceMap)
    ensures
        r@ == devices_by_id(devices@),
{
    let ghost all = devices@;
    let mut map: DeviceMap = HashMap::new();
    assert(all.take(0) =~= Seq::empty());
    for device in it: devices
        invariant
            it.seq() == all,
            map@ == devices_by_id(all.take(it.index() as int)),
    {
        assert(all.take(it.index() as int + 1).drop_last() =~= all.take(it.index() as int));
        let id: ConfigId = device.id;
        map.insert(id, device);
    }
    assert(all.take(all.len() as int) =~= all);
    map
}

/// The configurations by their interfaces; a later one replaces an earlier one.
pub open spec fn configs_by_iface(configs: Seq<LanIPv6ServiceConfigV2>) -> Map<
    Seq<char>,
    LanIPv6ServiceConfigV2,
>
    decreases configs.len(),
{
    if configs.len() == 0 {
        Map::empty()
    } else {
        configs_by_iface(configs.drop_last()).insert(configs.last().iface_name@, configs.last())
    }
}

pub fn index_lan_configs(configs: Vec<LanIPv6ServiceConfigV2>) -> (r: LanConfigMap)
    ensures
        r@ == configs_by_iface(configs@),
{
    let ghost all = configs@;
    let mut map: LanConfigMap = NameMap::new();
    assert(all.take(0) =~= Seq::empty());
    for config in it: configs
        invariant
            it.seq() == all,
            map@ == configs_by_iface(all.take(it.index() as int)),
    {
        assert(all.take(it.index() as int + 1).drop_last() =~= all.take(it.index() as int));
        let iface = config.iface_name.clone();
        map.insert(iface, config);
    }
    assert(all.take(all.len() as int) =~= all);
    map
}

/// An enabled IPv4 mapping that passes the run-time check and names a
/// protocol is among the run-time mappings.
pub proof fn law_checked_v4_mapping_is_active(
    config: StaticNatMappingV4Config,
    devices: Map<ConfigId, EnrolledDevice>,
)
    requires
        config.enable,
        target_ipv4(config.lan_target, devices) is Some,
    ensures
        runtime_v4_configs(seq![config], devices).len() == 1,
        runtime_v4_configs(seq![config], devices)[0].lan_ipv4 == target_ipv4(
            config.lan_target,
            devices,
        )->0,
{
    let one = seq![config];
    assert(one.drop_last() =~= Seq::empty());
    assert(runtime_v4_configs(one.drop_last(), devices) =~= Seq::empty());
}

/// A device behind a static parent is reached at an address in the subnet
/// from which its interface assigns addresses.
pub proof fn law_device_address_in_subnet(
    device: EnrolledDevice,
    lan: Map<Seq<char>, LanIPv6ServiceConfigV2>,
    base_prefix: Ipv6Addr,
    parent_prefix_len: u8,
)
    requires
        device_ipv6(device, lan) is Ok,
        first_na_group(lan[device.iface_name->0@].config.prefix_groups@, 0)->0.parent == (
        PrefixParentSource::Static { base_prefix, parent_prefix_len }),
    ensures
        ({
            let group = first_na_group(lan[device.iface_name->0@].config.prefix_groups@, 0)->0;
            let index = group.na->0.pool_index as u128;
            let subnet = spec_allocate(base_prefix, parent_prefix_len, 64, index).0;
            crate::lan_ipv6::subnet::spec_network(device_ipv6(device, lan)->Ok_0, 64) == subnet
        }),
{
    let group = first_na_group(lan[device.iface_name->0@].config.prefix_groups@, 0)->0;
    let index = group.na->0.pool_index as u128;
    let subnet = spec_allocate(base_prefix, parent_prefix_len, 64, index).0;
    crate::lan_ipv6::subnet::law_combine_keeps_prefix(subnet, 64, device.ipv6->0);
    crate::lan_ipv6::subnet::law_allocated_inside_parent(base_prefix, parent_prefix_len, 64, index);
}

/// A target that names addresses stands for these, one that is the router
/// itself for the unspecified address, and a device for its own address where
/// it is known and has one; no target stands for nothing.
pub proof fn law_what_targets_stand_for(
    devices: Map<ConfigId, EnrolledDevice>,
    lan: Map<Seq<char>, LanIPv6ServiceConfigV2>,
    ipv4: Option<Ipv4Addr>,
    ipv6: Option<Ipv6Addr>,
    id: ConfigId,
)
    ensures
        target_addresses(Some(StaticNatTarget::Address { ipv4, ipv6 }), devices, lan) == (
            ipv4,
            ipv6,
        ),
        target_addresses(Some(StaticNatTarget::Local), devices, lan) == (
            Some(Ipv4Addr { bits: 0 }),
            Some(Ipv6Addr { bits: 0 }),
        ),
        target_addresses(None, devices, lan) == (None::<Ipv4Addr>, None::<Ipv6Addr>),
        ({
            let r = target_addresses(
                Some(StaticNatTarget::Device { device_id: id }),
                devices,
                lan,
            );
            &&& !devices.contains_key(id) ==> r.0 is None && r.1 is None
            &&& devices.contains_key(id) ==> r.0 == devices[id].ipv4 && match device_ipv6(
                devices[id],
                lan,
            ) {
                Ok(ip) => r.1 == Some(ip),
                Err(_) => r.1 is None,
            }
        }),
        ipv4 is Some ==> target_ipv4(Some(StaticNatV4Target::Address { ipv4: ipv4->0 }), devices)
            == ipv4,
        target_ipv4(Some(StaticNatV4Target::Local), devices) == Some(Ipv4Addr { bits: 0 }),
        target_ipv4(None, devices) is None,
        target_ipv4(Some(StaticNatV4Target::Device { device_id: id }), devices)
            == if devices.contains_key(id) {
            devices[id].ipv4
        } else {
            None
        },
        ipv6 is Some ==> targets_ipv6(
            Some(StaticNatV6Target::Address { ipv6: ipv6->0 }),
            devices,
            lan,
        ) == seq![ipv6->0],
        targets_ipv6(Some(StaticNatV6Target::Local), devices, lan) == seq![Ipv6Addr { bits: 0 }],
        targets_ipv6(None, devices, lan).len() == 0,
{
}

/// The devices of an IPv6 target stand for their addresses one by one, in
/// order; a device that is not known, or has none, for nothing.
pub proof fn law_each_device_stands_for_itself(
    front: Seq<ConfigId>,
    id: ConfigId,
    devices: Map<ConfigId, EnrolledDevice>,
    lan: Map<Seq<char>, LanIPv6ServiceConfigV2>,
)
    ensures
        devices_ipv6(Seq::empty(), devices, lan) == Seq::<Ipv6Addr>::empty(),
        devices_ipv6(front.push(id), devices, lan) == if devices.contains_key(id) && device_ipv6(
            devices[id],
            lan,
        ) is Ok {
            devices_ipv6(front, devices, lan).push(device_ipv6(devices[id], lan)->Ok_0)
        } else {
            devices_ipv6(front, devices, lan)
        },
{
    assert(front.push(id).drop_last() =~= front);
}

/// Enabled mappings are resolved one by one, in order, and keep their ports and
/// protocols; disabled ones are left out, and so are those of one family whose
/// target stands for nothing. An IPv6 mapping comes once for each address.
pub proof fn law_each_mapping_is_resolved_alone(
    front: Seq<StaticNatMappingConfig>,
    c: StaticNatMappingConfig,
    front_v4: Seq<StaticNatMappingV4Config>,
    c4: StaticNatMappingV4Config,
    front_v6: Seq<StaticNatMappingV6Config>,
    c6: StaticNatMappingV6Config,
    devices: Map<ConfigId, EnrolledDevice>,
    lan: Map<Seq<char>, LanIPv6ServiceConfigV2>,
)
    ensures
        runtime_configs(Seq::empty(), devices, lan).len() == 0,
        runtime_v4_configs(Seq::empty(), devices).len() == 0,
        runtime_v6_configs(Seq::empty(), devices, lan).len() == 0,
        ({
            let before = runtime_configs(front, devices, lan);
            let after = runtime_configs(front.push(c), devices, lan);
            &&& !c.enable ==> after == before
            &&& c.enable ==> {
                &&& after.drop_last() == before
                &&& after.len() == before.len() + 1
                &&& after.last().mapping_pair_ports@ == c.mapping_pair_ports@
                &&& (after.last().lan_ipv4, after.last().lan_ipv6) == target_addresses(
                    c.lan_target,
                    devices,
                    lan,
                )
                &&& after.last().ipv4_l4_protocol@ == c.ipv4_l4_protocol@
                &&& after.last().ipv6_l4_protocol@ == c.ipv6_l4_protocol@
            }
        }),
        ({
            let before = runtime_v4_configs(front_v4, devices);
            let after = runtime_v4_configs(front_v4.push(c4), devices);
            match target_ipv4(c4.lan_target, devices) {
                Some(ip) => {
                    &&& !c4.enable ==> after == before
                    &&& c4.enable ==> {
                        &&& after.drop_last() == before
                        &&& after.len() == before.len() + 1
                        &&& after.last().mapping_pair_ports@ == c4.mapping_pair_ports@
                        &&& after.last().lan_ipv4 == ip
                        &&& after.last().l4_protocols@ == c4.l4_protocols@
                    }
                },
                None => after == before,
            }
        }),
        ({
            let before = runtime_v6_configs(front_v6, devices, lan);
            let after = runtime_v6_configs(front_v6.push(c6), devices, lan);
            let ips = targets_ipv6(c6.lan_target, devices, lan);
            &&& !c6.enable ==> after == before
            &&& c6.enable ==> {
                &&& after.len() == before.len() + ips.len()
                &&& after.take(before.len() as int) == before
                &&& forall|k: int|
                    0 <= k < ips.len() ==> (#[trigger] after[before.len() + k]).lan_ipv6 == ips[k]
                        && after[before.len() + k].ports == c6.port_config@
                        && after[before.len() + k].l4_protocols == c6.l4_protocols@
            }
        }),
{
    assert(front.push(c).drop_last() =~= front);
    assert(front_v4.push(c4).drop_last() =~= front_v4);
    assert(front_v6.push(c6).drop_last() =~= front_v6);
    let before = runtime_configs(front, devices, lan);
    if c.enable {
        assert(runtime_configs(front.push(c), devices, lan).drop_last() =~= before);
    }
    let before_v4 = runtime_v4_configs(front_v4, devices);
    if c4.enable && target_ipv4(c4.lan_target, devices) is Some {
        assert(runtime_v4_configs(front_v4.push(c4), devices).drop_last() =~= before_v4);
    }
    let before_v6 = runtime_v6_configs(front_v6, devices, lan);
    if c6.enable {
        assert(runtime_v6_configs(front_v6.push(c6), devices, lan).take(before_v6.len() as int)
            =~= before_v6);
    }
}

/// A device has an IPv6 address exactly where it has one of its own, an
/// interface with a service on it, and that service a group that assigns
/// addresses; behind a static parent that group must also have its subnet. The
/// first such group decides. Behind a delegated parent the address is the
/// device's own.
pub proof fn law_device_ipv6(
    device: EnrolledDevice,
    lan: Map<Seq<char>, LanIPv6ServiceConfigV2>,
    g: int,
)
    requires
        device.ipv6 is Some,
        device.iface_name is Some,
        lan.contains_key(device.iface_name->0@),
        ({
            let groups = lan[device.iface_name->0@].config.prefix_groups@;
            0 <= g < groups.len() && groups[g].na is Some && forall|k: int|
                0 <= k < g ==> (#[trigger] groups[k]).na is None
        }),
    ensures
        ({
            let group = lan[device.iface_name->0@].config.prefix_groups@[g];
            match group.parent {
                PrefixParentSource::Pd { .. } => device_ipv6(device, lan) == Ok::<
                    Ipv6Addr,
                    Seq<char>,
                >(device.ipv6->0),
                PrefixParentSource::Static { base_prefix, parent_prefix_len } => {
                    let index = group.na->0.pool_index as u128;
                    &&& device_ipv6(device, lan) is Ok <==> has_subnet(parent_prefix_len, 64, index)
                    &&& has_subnet(parent_prefix_len, 64, index) ==> device_ipv6(device, lan)
                        == Ok::<Ipv6Addr, Seq<char>>(
                        spec_combine(
                            spec_allocate(base_prefix, parent_prefix_len, 64, index).0,
                            64,
                            device.ipv6->0,
                        ),
                    )
                },
            }
        }),
{
    lemma_first_na_group_from(lan[device.iface_name->0@].config.prefix_groups@, 0, g);
}

proof fn lemma_first_na_group_from(groups: Seq<LanPrefixGroupConfig>, from: int, i: int)
    requires
        0 <= from <= i <= groups.len(),
        forall|k: int| from <= k < i ==> (#[trigger] groups[k]).na is None,
    ensures
        first_na_group(groups, from) == first_na_group(groups, i),
    decreases i - from,
{
    if from < i {
        assert(groups[from].na is None);
        lemma_first_na_group_from(groups, from + 1, i);
    }
}

/// Without an address, an interface, a service on it or a group that assigns
/// addresses there, a device has no IPv6 address.
pub proof fn law_device_without_ipv6(
    device: EnrolledDevice,
    lan: Map<Seq<char>, LanIPv6ServiceConfigV2>,
)
    requires
        device.ipv6 is None || device.iface_name is None || !lan.contains_key(
            device.iface_name->0@,
        ) || forall|k: int|
            0 <= k < lan[device.iface_name->0@].config.prefix_groups@.len() ==> (
            #[trigger] lan[device.iface_name->0@].config.prefix_groups@[k]).na is None,
    ensures
        device_ipv6(device, lan) is Err,
{
    if device.ipv6 is Some && device.iface_name is Some && lan.contains_key(
        device.iface_name->0@,
    ) {
        let groups = lan[device.iface_name->0@].config.prefix_groups@;
        lemma_first_na_group_from(groups, 0, groups.len() as int);
    }
}

/// An enabled mapping to a device is refused where the device is not known, or
/// lacks an address of a family that the mapping is for; nothing else is.
pub proof fn law_refused_device_targets(
    config: StaticNatMappingConfig,
    devices: Map<ConfigId, EnrolledDevice>,
    id: ConfigId,
)
    requires
        config.lan_target == Some(StaticNatTarget::Device { device_id: id }),
        id != 0,
    ensures
        !config.enable ==> device_target_fault(config, devices) is None,
        config.enable && !devices.contains_key(id) ==> device_target_fault(config, devices) == Some(
            StaticNatError::DeviceNotFound(id),
        ),
        config.enable && devices.contains_key(id) ==> {
            let lacks_v4 = config.ipv4_l4_protocol@.len() > 0 && devices[id].ipv4 is None;
            let lacks_v6 = config.ipv6_l4_protocol@.len() > 0 && devices[id].ipv6 is None;
            &&& lacks_v4 ==> device_target_fault(config, devices) == Some(
                StaticNatError::DeviceMissingIpv4(id),
            )
            &&& !lacks_v4 && lacks_v6 ==> device_target_fault(config, devices) == Some(
                StaticNatError::DeviceMissingIpv6(id),
            )
            &&& !lacks_v4 && !lacks_v6 ==> device_target_fault(config, devices) is None
        },
{
}

/// The first device that is not known, or has no IPv6 address, is told; where
/// there is none, nothing is.
pub proof fn law_first_device_fault(
    ids: Seq<ConfigId>,
    devices: Map<ConfigId, EnrolledDevice>,
    i: int,
)
    requires
        0 <= i <= ids.len(),
        forall|k: int|
            0 <= k < i ==> (#[trigger] ids[k]) == 0 || (devices.contains_key(ids[k])
                && devices[ids[k]].ipv6 is Some),
        i < ids.len() ==> ids[i] != 0 && (!devices.contains_key(ids[i]) || devices[ids[i]].ipv6
            is None),
    ensures
        i == ids.len() ==> devices_fault(ids, devices, 0) is None,
        i < ids.len() ==> devices_fault(ids, devices, 0) == Some(
            if devices.contains_key(ids[i]) {
                StaticNatError::DeviceMissingIpv6(ids[i])
            } else {
                StaticNatError::DeviceNotFound(ids[i])
            },
        ),
{
    lemma_devices_fault_from(ids, devices, 0, i);
}

proof fn lemma_devices_fault_from(
    ids: Seq<ConfigId>,
    devices: Map<ConfigId, EnrolledDevice>,
    from: int,
    i: int,
)
    requires
        0 <= from <= i <= ids.len(),
        forall|k: int|
            from <= k < i ==> (#[trigger] ids[k]) == 0 || (devices.contains_key(ids[k])
                && devices[ids[k]].ipv6 is Some),
    ensures
        devices_fault(ids, devices, from) == devices_fault(ids, devices, i),
    decreases i - from,
{
    if from < i {
        assert(ids[from] == 0 || (devices.contains_key(ids[from]) && devices[ids[from]].ipv6
            is Some));
        lemma_devices_fault_from(ids, devices, from + 1, i);
    }
}

/// Of several devices with one id the last one is found under it, and under an
/// id that no device has nothing is.
pub proof fn law_devices_by_id(devices: Seq<EnrolledDevice>, id: ConfigId, i: int)
    requires
        -1 <= i < devices.len(),
        i >= 0 ==> devices[i].id == id,
        forall|k: int| i < k < devices.len() ==> (#[trigger] devices[k]).id != id,
    ensures
        i < 0 ==> !devices_by_id(devices).contains_key(id),
        i >= 0 ==> devices_by_id(devices).contains_key(id) && devices_by_id(devices)[id]
            == devices[i],
    decreases devices.len(),
{
    if devices.len() > 0 && i < devices.len() - 1 {
        let front = devices.drop_last();
        if i >= 0 {
            assert(front[i] == devices[i]);
        }
        assert forall|k: int| i < k < front.len() implies (#[trigger] front[k]).id != id by {
            assert(front[k] == devices[k]);
        }
        law_devices_by_id(front, id, i);
        assert(devices[devices.len() - 1] == devices.last());
    }
}

/// Of several configurations of one interface the last one is found under it,
/// and under an interface that none is for nothing is.
pub proof fn law_configs_by_iface(
    configs: Seq<LanIPv6ServiceConfigV2>,
    iface: Seq<char>,
    i: int,
)
    requires
        -1 <= i < configs.len(),
        i >= 0 ==> configs[i].iface_name@ == iface,
        forall|k: int| i < k < configs.len() ==> (#[trigger] configs[k]).iface_name@ != iface,
    ensures
        i < 0 ==> !configs_by_iface(configs).contains_key(iface),
        i >= 0 ==> configs_by_iface(configs).contains_key(iface) && configs_by_iface(configs)[iface]
            == configs[i],
    decreases configs.len(),
{
    if configs.len() > 0 && i < configs.len() - 1 {
        let front = configs.drop_last();
        if i >= 0 {
            assert(front[i] == configs[i]);
        }
        assert forall|k: int| i < k < front.len() implies (#[trigger] front[k]).iface_name@
            != iface by {
            assert(front[k] == configs[k]);
        }
        law_configs_by_iface(front, iface, i);
        assert(configs[configs.len() - 1] == configs.last());
    }
}

/// Only an enabled mapping with protocols is refused for its target: an IPv4
/// one where the target stands for no address, and an IPv6 one for the first
/// of its devices that is not known or has no address, never for another kind
/// of target.
pub proof fn law_refused_targets(
    c4: StaticNatMappingV4Config,
    c6: StaticNatMappingV6Config,
    devices: Map<ConfigId, EnrolledDevice>,
)
    ensures
        !c4.enable || c4.l4_protocols@.len() == 0 ==> !unreachable_v4(c4, devices),
        c4.enable && c4.l4_protocols@.len() > 0 ==> (unreachable_v4(c4, devices)
            <==> match c4.lan_target {
            None => true,
            Some(StaticNatV4Target::Device { device_id }) => !devices.contains_key(device_id)
                || devices[device_id].ipv4 is None,
            Some(_) => false,
        }),
        !c6.enable || c6.l4_protocols@.len() == 0 ==> targets_fault_v6(c6, devices) is None,
        c6.enable && c6.l4_protocols@.len() > 0 ==> match c6.lan_target {
            Some(StaticNatV6Target::Device { device_ids }) => targets_fault_v6(c6, devices)
                == devices_fault(device_ids@, devices, 0),
            _ => targets_fault_v6(c6, devices) is None,
        },
{
}

} // verus!

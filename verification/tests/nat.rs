//! Static and dynamic address translation.
use core::ops::Range;
use landscape::device::EnrolledDevice;
use landscape::error::ServiceConfigError;
use landscape::lan_ipv6::config::{IPv6ServiceMode, LanIPv6ConfigV2, LanIPv6ServiceConfigV2};
use landscape::lan_ipv6::ipv6_ra::ra_flag_default;
use landscape::lan_ipv6::prefix_group::{
    LanPrefixGroupConfig, NaPrefixConfig, PrefixParentSource,
};
use landscape::natting::config::{NatConfig, NatServiceConfig};
use landscape::natting::entries::{
    build_static_nat4_entries, build_static_nat6_entries, Gress, NatMappingKeyV4,
    StaticNat6MappingKey,
};
use landscape::natting::error::{NatServiceError, StaticNatError};
use landscape::natting::ports::{
    find_active_nat_config, has_dynamic_port_conflict, has_static_port_in_dynamic_range,
    is_port_in_dynamic_range,
};
use landscape::natting::resolve::{
    device_ids_for_configs, device_ids_for_configs_v4, device_ids_for_configs_v6, index_devices,
    index_lan_configs, list_runtime_configs, list_runtime_configs_v4, list_runtime_configs_v6,
    resolve_device_ipv6, validate_runtime_target, validate_runtime_target_v4,
    validate_runtime_target_v6,
};
use landscape::natting::setup::{attach_tc_nat, init_nat, seed_port_queue, NatStep};
use landscape::natting::static_nat::{
    StaticMapPair, StaticNatMappingConfig, StaticNatTarget,
};
use landscape::natting::static_nat_v4::{
    RuntimeStaticNatMappingV4Config, StaticNatMappingV4Config, StaticNatV4Target,
};
use landscape::natting::static_nat_v6::{
    RuntimeStaticNatMappingV6Config, StaticNatMappingV6Config, StaticNatV6PortConfig,
    StaticNatV6Target,
};
use landscape::net::{IpAddr, Ipv4Addr, Ipv6Addr};

fn reason(r: Result<(), ServiceConfigError>) -> String {
    match r {
        Ok(()) => String::new(),
        Err(ServiceConfigError::InvalidConfig { reason }) => reason,
    }
}

fn new_id() -> u128 {
    uuid::Uuid::new_v4().as_u128()
}

fn base_config() -> StaticNatMappingConfig {
    StaticNatMappingConfig {
        id: uuid::Uuid::nil().as_u128(),
        enable: true,
        remark: String::new(),
        wan_iface_name: None,
        mapping_pair_ports: vec![StaticMapPair { wan_port: 80, lan_port: 8080 }],
        lan_target: Some(StaticNatTarget::Address {
            ipv4: Some(Ipv4Addr::new(192, 0, 2, 10)),
            ipv6: None,
        }),
        ipv4_l4_protocol: vec![6],
        ipv6_l4_protocol: vec![],
    }
}

#[test]
fn enabled_static_nat_requires_target() {
    let mut config = base_config();
    config.lan_target = None;

    assert!(config.validate().is_err());
}

#[test]
fn ipv6_protocol_requires_ipv6_target_for_address_mode() {
    let mut config = base_config();
    config.ipv6_l4_protocol = vec![17];

    assert!(config.validate().is_err());
}

#[test]
fn ipv4_only_device_target_passes_config_validation() {
    let mut config = base_config();
    config.lan_target = Some(StaticNatTarget::Device { device_id: new_id() });

    assert!(config.validate().is_ok());
}

#[test]
fn mapping_faults_are_named() {
    let mut config = base_config();
    config.lan_target = Some(StaticNatTarget::Device { device_id: 0 });
    assert_eq!(reason(config.validate()), "device target must select a valid enrolled device");
    config.lan_target = Some(StaticNatTarget::Local);
    config.mapping_pair_ports.push(StaticMapPair { wan_port: 1, lan_port: 0 });
    assert_eq!(reason(config.validate()), "mapping_pair_ports[1].lan_port must not be 0");
    config.mapping_pair_ports[1].wan_port = 0;
    assert_eq!(reason(config.validate()), "mapping_pair_ports[1].wan_port must not be 0");
    config.mapping_pair_ports.clear();
    assert_eq!(reason(config.validate()), "mapping_pair_ports must not be empty when enabled");
    config.enable = false;
    config.ipv4_l4_protocol = vec![6, 1];
    assert_eq!(
        reason(config.validate()),
        "ipv4_l4_protocol[1] (1) must be 6 (TCP) or 17 (UDP)"
    );
    config.ipv4_l4_protocol = vec![];
    config.ipv6_l4_protocol = vec![58];
    assert_eq!(
        reason(config.validate()),
        "ipv6_l4_protocol[0] (58) must be 6 (TCP) or 17 (UDP)"
    );
}

#[test]
fn items_list_ipv4_before_ipv6() {
    let mut config = base_config();
    config.lan_target = Some(StaticNatTarget::Local);
    config.ipv4_l4_protocol = vec![6, 17];
    config.ipv6_l4_protocol = vec![17];
    let items = config.convert_to_item();
    let short: Vec<(IpAddr, u8)> = items.iter().map(|i| (i.lan_ip, i.l4_protocol)).collect();
    let v4 = IpAddr::V4(Ipv4Addr { bits: 0 });
    let v6 = IpAddr::V6(Ipv6Addr { bits: 0 });
    assert_eq!(short, vec![(v4, 6), (v4, 17), (v6, 17)]);
    config.lan_target = Some(StaticNatTarget::Device { device_id: 3 });
    assert!(config.convert_to_item().is_empty());
}

fn v4_config(port: u16, proto: u8) -> StaticNatMappingV4Config {
    StaticNatMappingV4Config {
        id: new_id(),
        enable: true,
        remark: String::new(),
        wan_iface_name: None,
        mapping_pair_ports: vec![StaticMapPair { wan_port: port, lan_port: port }],
        lan_target: Some(StaticNatV4Target::address(Ipv4Addr::new(192, 168, 1, 100))),
        l4_protocols: vec![proto],
    }
}

#[test]
fn port_in_range_returns_true() {
    let stored = vec![v4_config(8080, 6)];
    let result = has_static_port_in_dynamic_range(&stored, 6, 8000, 9000);
    assert!(result, "port 8080 should be detected inside range 8000-9000");
}

#[test]
fn port_outside_range_returns_false() {
    let stored = vec![v4_config(80, 6)];
    let result = has_static_port_in_dynamic_range(&stored, 6, 8000, 9000);
    assert!(!result, "port 80 should not be inside range 8000-9000");
}

#[test]
fn wrong_protocol_returns_false() {
    let stored = vec![v4_config(8080, 6)];
    let result = has_static_port_in_dynamic_range(&stored, 17, 8000, 9000);
    assert!(!result, "UDP check should not find TCP-only static mapping");
}

#[test]
fn disabled_mapping_returns_false() {
    let mut config = v4_config(8080, 6);
    config.enable = false;
    let result = has_static_port_in_dynamic_range(&[config], 6, 8000, 9000);
    assert!(!result, "disabled mapping should be ignored");
}

#[test]
fn boundary_port_returns_true() {
    let stored = vec![v4_config(8000, 6)];
    let result = has_static_port_in_dynamic_range(&stored, 6, 8000, 9000);
    assert!(result, "port at range start should be detected");
}

#[test]
fn multiple_protocols_one_matches() {
    let mut config = v4_config(8080, 6);
    config.l4_protocols = vec![6, 17];
    assert!(
        has_static_port_in_dynamic_range(&[config], 17, 8000, 9000),
        "UDP check should match multi-protocol mapping"
    );
}

fn make_nat_config(iface: &str, tcp_range: (u16, u16), udp_range: (u16, u16)) -> NatServiceConfig {
    NatServiceConfig {
        iface_name: iface.to_string(),
        enable: true,
        nat_config: NatConfig {
            tcp_range: tcp_range.0..tcp_range.1,
            udp_range: udp_range.0..udp_range.1,
            icmp_in_range: 0..0,
        },
    }
}

#[test]
fn conflict_when_wan_port_inside_dynamic_range() {
    let services = vec![make_nat_config("wan0", (32768, 65535), (32768, 65535))];
    let result = has_dynamic_port_conflict(&v4_config(40000, 6), &services);
    assert!(result, "TCP port 40000 should conflict with range 32768-65535");
}

#[test]
fn no_conflict_when_wan_port_outside_dynamic_range() {
    let services = vec![make_nat_config("wan0", (32768, 65535), (32768, 65535))];
    let result = has_dynamic_port_conflict(&v4_config(80, 6), &services);
    assert!(!result, "TCP port 80 should not conflict with range 32768-65535");
}

#[test]
fn no_conflict_when_nat_disabled() {
    let mut cfg = make_nat_config("wan0", (32768, 65535), (32768, 65535));
    cfg.enable = false;
    let result = has_dynamic_port_conflict(&v4_config(40000, 6), &[cfg]);
    assert!(!result, "disabled NAT should not cause conflict");
}

#[test]
fn conflict_matches_correct_protocol_range() {
    let services = vec![make_nat_config("wan0", (32768, 65535), (10000, 20000))];
    let result = has_dynamic_port_conflict(&v4_config(15000, 17), &services);
    assert!(result, "UDP port 15000 should conflict with UDP range 10000-20000");
}

#[test]
fn no_conflict_when_protocol_range_mismatch() {
    let services = vec![make_nat_config("wan0", (32768, 65535), (10000, 20000))];
    let result = has_dynamic_port_conflict(&v4_config(40000, 17), &services);
    assert!(!result, "UDP port 40000 should not conflict with UDP range 10000-20000");
}

#[test]
fn boundary_port_triggers_conflict() {
    let services = vec![make_nat_config("wan0", (32768, 65535), (32768, 65535))];
    let result = has_dynamic_port_conflict(&v4_config(32768, 6), &services);
    assert!(result, "port at range start should be detected");
}

#[test]
fn services_are_asked_for_a_port() {
    let mut off = make_nat_config("a", (1, 10), (1, 10));
    off.enable = false;
    let services = vec![off, make_nat_config("b", (100, 200), (300, 400))];
    assert!(is_port_in_dynamic_range(&services, 6, 200));
    assert!(!is_port_in_dynamic_range(&services, 6, 5));
    assert!(!is_port_in_dynamic_range(&services, 17, 200));
    assert!(!is_port_in_dynamic_range(&services, 1, 150));
    assert_eq!(find_active_nat_config(&services).unwrap().iface_name, "b");
    assert!(find_active_nat_config(&services[..1]).is_none());
}

#[test]
fn dynamic_ranges_are_checked_in_turn() {
    assert!(NatConfig::default().validate().is_ok());
    let mut config = NatConfig::default();
    config.udp_range = 5..5;
    let e = config.validate().unwrap_err();
    assert_eq!(e.message(), "udp_range start (5) must be less than end (5)");
    assert_eq!((e.error_id(), e.http_status_code()), ("nat.port_range_invalid", 422));
    config.tcp_range = 0..9;
    let e = config.validate().unwrap_err();
    assert_eq!(e.message(), "tcp_range start port must be > 0");
    assert_eq!(NatServiceError::NotFound("w".to_string()).message(), "NAT config not found for 'w'");
}

#[test]
fn v4_mappings_are_checked() {
    let mut config = v4_config(80, 6);
    assert!(config.validate().is_ok());
    config.l4_protocols = vec![6, 2];
    assert_eq!(reason(config.validate()), "l4_protocols[1] (2) must be 6 (TCP) or 17 (UDP)");
    config.lan_target = None;
    assert_eq!(reason(config.validate()), "enabled static NAT mapping must define a LAN target");
    config.enable = false;
    config.l4_protocols = vec![];
    config.mapping_pair_ports = vec![];
    assert!(config.validate().is_ok());
}

fn v6_config(ports: Vec<u16>, target: Option<StaticNatV6Target>) -> StaticNatMappingV6Config {
    StaticNatMappingV6Config {
        id: 1,
        enable: true,
        remark: String::new(),
        wan_iface_name: None,
        port_config: StaticNatV6PortConfig::Ports { ports },
        lan_target: target,
        l4_protocols: vec![6],
    }
}

#[test]
fn v6_mappings_are_checked() {
    let device = |ids: Vec<u128>| Some(StaticNatV6Target::Device { device_ids: ids });
    let check = |c: StaticNatMappingV6Config| reason(c.validate());
    assert_eq!(check(v6_config(vec![1], device(vec![4, 5]))), "");
    assert_eq!(
        check(v6_config(vec![1], device(vec![]))),
        "device target must select at least one valid enrolled device"
    );
    assert_eq!(
        check(v6_config(vec![1], device(vec![4, 0]))),
        "device target must select a valid enrolled device"
    );
    assert_eq!(
        check(v6_config(vec![1], device(vec![4, 5, 4]))),
        "device target must not contain duplicate devices"
    );
    let local = || Some(StaticNatV6Target::Local);
    assert_eq!(
        check(v6_config(vec![], local())),
        "port_config ports list must not be empty when enabled"
    );
    assert_eq!(check(v6_config(vec![7, 0], local())), "port_config ports[1] must not be 0");
    assert_eq!(check(v6_config(vec![7, 8, 7], local())), "port_config ports[2] (7) is duplicated");
    let mut all = v6_config(vec![], local());
    all.port_config = StaticNatV6PortConfig::All;
    assert_eq!(check(all), "local target does not support opening all ports");
    assert_eq!(
        check(v6_config(vec![7], None)),
        "enabled static NAT mapping must define a LAN target"
    );
}

fn device(id: u128, iface: Option<&str>, v4: Option<u32>, v6: Option<u128>) -> EnrolledDevice {
    EnrolledDevice {
        id,
        iface_name: iface.map(|s| s.to_string()),
        hostname: None,
        ipv4: v4.map(|bits| Ipv4Addr { bits }),
        ipv6: v6.map(|bits| Ipv6Addr { bits }),
    }
}

fn lan(iface: &str, parent: PrefixParentSource, pool_index: u32) -> LanIPv6ServiceConfigV2 {
    LanIPv6ServiceConfigV2 {
        iface_name: iface.to_string(),
        enable: true,
        config: LanIPv6ConfigV2 {
            mode: IPv6ServiceMode::Stateful,
            ad_interval: 300,
            ra_flag: ra_flag_default(),
            prefix_groups: vec![LanPrefixGroupConfig {
                group_id: "g".to_string(),
                parent,
                ra: None,
                na: Some(NaPrefixConfig { pool_index }),
                pd: None,
            }],
            dhcpv6: None,
        },
    }
}

#[test]
fn devices_are_reached_in_their_subnet() {
    let ula = Ipv6Addr::new(0xfd00, 0, 0, 0, 0, 0, 0, 0);
    let fixed = PrefixParentSource::Static { base_prefix: ula, parent_prefix_len: 56 };
    let pd = PrefixParentSource::Pd {
        depend_iface: "wan".to_string(),
        planned_parent_prefix_len: 56,
    };
    let narrow = PrefixParentSource::Static { base_prefix: ula, parent_prefix_len: 63 };
    let lans = index_lan_configs(vec![lan("a", fixed, 7), lan("b", pd, 1), lan("c", narrow, 2)]);
    let at = |iface: Option<&str>, v6: Option<u128>| {
        resolve_device_ipv6(&device(1, iface, None, v6), &lans)
    };
    assert_eq!(at(Some("a"), Some(0x22)), Ok(Ipv6Addr::new(0xfd00, 0, 0, 7, 0, 0, 0, 0x22)));
    assert_eq!(at(Some("b"), Some(0x22)), Ok(Ipv6Addr { bits: 0x22 }));
    assert_eq!(at(Some("a"), None), Err("device has no IPv6 address".to_string()));
    assert_eq!(at(None, Some(1)), Err("device has no interface name".to_string()));
    assert_eq!(
        at(Some("x"), Some(1)),
        Err("no LAN IPv6 service config for interface 'x'".to_string())
    );
    assert_eq!(
        at(Some("c"), Some(1)),
        Err("failed to allocate subnet for NA pool on interface 'c'".to_string())
    );
}

#[test]
fn runtime_mappings_follow_their_targets() {
    let devices = index_devices(vec![
        device(5, None, Some(0x0a00_0005), None),
        device(6, None, None, Some(9)),
    ]);
    let lans = index_lan_configs(vec![]);
    let mut to_device = base_config();
    to_device.lan_target = Some(StaticNatTarget::Device { device_id: 5 });
    let mut off = base_config();
    off.enable = false;
    let mut unknown = base_config();
    unknown.lan_target = Some(StaticNatTarget::Device { device_id: 77 });
    assert_eq!(device_ids_for_configs(&[base_config()]), Vec::<u128>::new());
    let all = list_runtime_configs(vec![to_device, off, unknown, base_config()], &devices, &lans);
    let addrs: Vec<Option<u32>> = all.iter().map(|c| c.lan_ipv4.map(|ip| ip.bits)).collect();
    assert_eq!(addrs, vec![Some(0x0a00_0005), None, Some(0xc000_020a)]);

    let mut v4 = v4_config(80, 6);
    v4.lan_target = Some(StaticNatV4Target::Device { device_id: 6 });
    let mut again = v4_config(81, 6);
    again.lan_target = Some(StaticNatV4Target::Device { device_id: 6 });
    let configs = vec![v4, again, v4_config(82, 6)];
    assert_eq!(device_ids_for_configs_v4(&configs), vec![6]);
    assert_eq!(list_runtime_configs_v4(configs, &devices).len(), 1);

    let target = Some(StaticNatV6Target::Device { device_ids: vec![5, 6, 5] });
    let v6 = vec![v6_config(vec![1], target)];
    assert_eq!(device_ids_for_configs_v6(&v6), vec![5, 6]);
    assert!(list_runtime_configs_v6(&v6, &devices, &lans).is_empty());
    let fixed = Some(StaticNatV6Target::address(Ipv6Addr { bits: 3 }));
    let listed = list_runtime_configs_v6(&[v6_config(vec![1], fixed)], &devices, &lans);
    assert_eq!(listed[0].lan_ipv6.bits, 3);
}

#[test]
fn runtime_targets_are_checked_against_devices() {
    let devices = index_devices(vec![device(5, None, Some(1), None)]);
    let mut config = base_config();
    config.lan_target = Some(StaticNatTarget::Device { device_id: 5 });
    assert!(validate_runtime_target(&config, &devices).is_ok());
    config.ipv6_l4_protocol = vec![6];
    let e = validate_runtime_target(&config, &devices).unwrap_err();
    assert!(matches!(e, StaticNatError::DeviceMissingIpv6(5)));
    assert_eq!(
        e.message(),
        "Device '00000000-0000-0000-0000-000000000005' does not have an IPv6 address"
    );
    config.lan_target = Some(StaticNatTarget::Device { device_id: 9 });
    let e = validate_runtime_target(&config, &devices).unwrap_err();
    assert!(matches!(e, StaticNatError::DeviceNotFound(9)));
    assert_eq!(e.http_status_code(), 404);

    let mut v4 = v4_config(80, 6);
    v4.lan_target = Some(StaticNatV4Target::Device { device_id: 9 });
    let e = validate_runtime_target_v4(&v4, &devices).unwrap_err();
    assert_eq!(
        e.message(),
        "Static NAT target must resolve to a valid target: \
         enabled IPv4 static NAT mapping must resolve to an IPv4 target"
    );
    let target = Some(StaticNatV6Target::Device { device_ids: vec![0, 5] });
    let e = validate_runtime_target_v6(&v6_config(vec![1], target), &devices).unwrap_err();
    assert!(matches!(e, StaticNatError::DeviceMissingIpv6(5)));
}

#[test]
fn static_nat_errors_are_worded() {
    let e = StaticNatError::PortConflict {
        port: 80,
        iface_name: "wan0".to_string(),
        protocol: 6,
        start: 1,
        end: 100,
    };
    assert_eq!(
        e.message(),
        "Static NAT port 80 conflicts with dynamic range on 'wan0' (6 range 1-100)"
    );
    assert_eq!((e.error_id(), e.http_status_code()), ("static_nat.port_conflict", 409));
    let e = StaticNatError::PortInDynamicRange {
        mapping_id: u128::MAX,
        port: 80,
        protocol: 17,
        start: 1,
        end: 100,
    };
    assert_eq!(
        e.message(),
        "Static NAT mapping ffffffff-ffff-ffff-ffff-ffffffffffff port 80 overlaps with dynamic 17 \
         range 1-100"
    );
}

#[test]
fn data_path_entries_lead_both_ways() {
    let config = |ip: u32| RuntimeStaticNatMappingV4Config {
        mapping_pair_ports: vec![StaticMapPair { wan_port: 80, lan_port: 8080 }],
        lan_ipv4: Ipv4Addr { bits: ip },
        l4_protocols: vec![6],
    };
    let entries = build_static_nat4_entries(&[config(1), config(2)]);
    assert_eq!(entries.len(), 3);
    let inward =
        NatMappingKeyV4 { gress: Gress::Ingress, l4proto: 6, from_port: 80, from_addr: 0 };
    let value = entries.get(inward).unwrap();
    assert_eq!((value.port, value.addr), (8080, 2));
    let outward =
        NatMappingKeyV4 { gress: Gress::Egress, l4proto: 6, from_port: 8080, from_addr: 1 };
    assert_eq!(entries.get(outward).unwrap().port, 80);
    let (sent, sent_value) = (inward.to_wire(), value.to_wire());
    assert_eq!((sent.gress, sent.l4proto), (Gress::Ingress, 6));
    assert_eq!((sent.from_port, sent.from_addr), ([0, 80], [0, 0, 0, 0]));
    assert_eq!((sent_value.port, sent_value.addr), ([0x1f, 0x90], [0, 0, 0, 2]));
    assert_ne!(inward.to_wire(), outward.to_wire());
    assert!(entries.entry_at(3).is_none());

    let all_ports = RuntimeStaticNatMappingV6Config {
        port_config: StaticNatV6PortConfig::All,
        lan_ipv6: Ipv6Addr { bits: 5 },
        l4_protocols: vec![6, 17],
    };
    let entries = build_static_nat6_entries(&[all_ports]);
    assert_eq!(entries.len(), 4);
    let key = StaticNat6MappingKey {
        prefixlen: 192,
        gress: Gress::Egress,
        l4_protocol: 17,
        port: 0,
        addr: 5,
    };
    assert_eq!(entries.get(key).unwrap().is_static, 1);
    let sent = key.to_wire();
    assert_eq!((sent.prefixlen, sent.port), (192, [0, 0]));
    assert_eq!(sent.addr, [0, 0, 0, 0, 0, 0, 0, 0, 0, 0, 0, 0, 0, 0, 0, 5]);
    let far = StaticNat6MappingKey {
        port: 0x0102,
        addr: 0x2001_0db8_0001_0203_0405_0607_0809_0a0b,
        ..key
    };
    assert_eq!(far.to_wire().port, [1, 2]);
    assert_eq!(
        far.to_wire().addr,
        [0x20, 0x01, 0x0d, 0xb8, 0, 1, 2, 3, 4, 5, 6, 7, 8, 9, 10, 11]
    );
    assert_ne!(far.to_wire(), sent);
    assert_eq!(entries.get(key).unwrap().to_wire().is_static, 1);
}

#[test]
fn a_full_port_queue_does_not_end_the_setup() {
    let config = NatConfig::default();
    let mut setup = init_nat(7, false, &config);
    while let Some(step) = setup.next_step() {
        setup.report(!matches!(step, NatStep::SeedPorts { .. }));
    }
    let handle = setup.finish().unwrap();
    assert_eq!((handle.tc.unwrap().ifindex, handle.xdp.unwrap().ifindex), (7, 7));

    let mut setup = attach_tc_nat(7, false, &config);
    while let Some(step) = setup.next_step() {
        setup.report(step != NatStep::LoadTc);
    }
    assert_eq!(setup.finish(), Err(NatStep::LoadTc));
}

#[test]
fn nat_comes_up_step_by_step() {
    let config = NatConfig::default();
    let mut setup = init_nat(96, true, &config);
    let mut steps: Vec<NatStep> = Vec::new();
    while let Some(step) = setup.next_step() {
        steps.push(step);
        setup.report(true);
    }
    assert_eq!(steps.len(), 32);
    assert_eq!(steps[0], NatStep::EnsureRoots { ifindex: 96, has_mac: true });
    assert!(matches!(steps[2], NatStep::ConfigureTc { current_l3_offset: 14, .. }));
    assert_eq!(steps[31], NatStep::InjectXdp { ifindex: 96 });
    let handle = setup.finish().unwrap();
    assert_eq!(handle.tc.unwrap().ifindex, 96);
    assert_eq!(handle.xdp.unwrap().ifindex, 96);

    let mut broken = attach_tc_nat(3, false, &config);
    broken.report(true);
    broken.report(false);
    assert!(broken.next_step().is_none());
    assert_eq!(broken.finish().unwrap_err(), NatStep::OpenTc);
}

#[test]
fn port_queues_hold_both_ends() {
    assert_eq!(seed_port_queue(5, 8), vec![5, 6, 7, 8]);
    assert_eq!(seed_port_queue(65535, 65535), vec![65535]);
    assert!(seed_port_queue(2, 1).is_empty());
    let range: Range<u16> = NatConfig::default().tcp_range;
    assert_eq!(seed_port_queue(range.start, range.end).len(), 32768);
}

//! Prefix groups on LAN interfaces.
use landscape::error::ServiceConfigError;
use landscape::lan_ipv6::config::{IPv6ServiceMode, LanIPv6ConfigV2, LanIPv6ServiceConfigV2};
use landscape::lan_ipv6::dhcpv6_config::{DHCPv6IANAConfig, DHCPv6ServerConfig};
use landscape::lan_ipv6::ipv6_ra::{ra_flag_default, RouterFlags};
use landscape::lan_ipv6::prefix_group::{
    validate_cross_interface_v2, validate_cross_interface_v2_with_prefix_infos,
    validate_prefix_groups, validate_prefix_groups_with_prefix_infos, ExpandedParentKey,
    LDIAPrefix, LanPrefixGroupConfig, NaPrefixConfig, PdPrefixRangeConfig, PrefixInfoMap,
    PrefixParentSource, RaPrefixConfig,
};
use landscape::net::Ipv6Addr;

/// The address that a text with at most one `::` stands for.
fn v6(text: &str) -> Ipv6Addr {
    let (head, tail) = match text.split_once("::") {
        Some((head, tail)) => (head, tail),
        None => (text, ""),
    };
    let groups = |part: &str| -> Vec<u16> {
        part.split(':')
            .filter(|g| !g.is_empty())
            .map(|g| u16::from_str_radix(g, 16).unwrap())
            .collect()
    };
    let (head, tail) = (groups(head), groups(tail));
    let mut all = [0u16; 8];
    all[..head.len()].copy_from_slice(&head);
    all[8 - tail.len()..].copy_from_slice(&tail);
    Ipv6Addr::new(all[0], all[1], all[2], all[3], all[4], all[5], all[6], all[7])
}

#[test]
fn v2_stateful_requires_enabled_dhcpv6() {
    let config = LanIPv6ConfigV2 {
        mode: IPv6ServiceMode::Stateful,
        ad_interval: 300,
        ra_flag: ra_flag_default(),
        prefix_groups: vec![LanPrefixGroupConfig {
            group_id: "stateful-na".to_string(),
            parent: PrefixParentSource::Static {
                base_prefix: v6("fd00::"),
                parent_prefix_len: 60,
            },
            ra: None,
            na: Some(NaPrefixConfig { pool_index: 0 }),
            pd: None,
        }],
        dhcpv6: None,
    };

    assert!(config.validate().is_err());
}

#[test]
fn v2_slaac_does_not_allow_enabled_dhcpv6() {
    let config = LanIPv6ConfigV2 {
        mode: IPv6ServiceMode::Slaac,
        ad_interval: 300,
        ra_flag: RouterFlags {
            managed_address_config: false,
            other_config: false,
            ..ra_flag_default()
        },
        prefix_groups: vec![LanPrefixGroupConfig {
            group_id: "slaac-ra".to_string(),
            parent: PrefixParentSource::Static {
                base_prefix: v6("fd00::"),
                parent_prefix_len: 60,
            },
            ra: Some(RaPrefixConfig {
                pool_index: 0,
                preferred_lifetime: 300,
                valid_lifetime: 600,
            }),
            na: None,
            pd: None,
        }],
        dhcpv6: Some(DHCPv6ServerConfig { enable: true, ..DHCPv6ServerConfig::default() }),
    };

    assert!(config.validate().is_err());
}

#[test]
fn v2_slaac_dhcpv6_rejects_pd_ra_groups() {
    let config = LanIPv6ConfigV2 {
        mode: IPv6ServiceMode::SlaacDhcpv6,
        ad_interval: 300,
        ra_flag: ra_flag_default(),
        prefix_groups: vec![
            LanPrefixGroupConfig {
                group_id: "ra-pd".to_string(),
                parent: PrefixParentSource::Pd {
                    depend_iface: "eth0".to_string(),
                    planned_parent_prefix_len: 60,
                },
                ra: Some(RaPrefixConfig {
                    pool_index: 1,
                    preferred_lifetime: 300,
                    valid_lifetime: 600,
                }),
                na: None,
                pd: None,
            },
            LanPrefixGroupConfig {
                group_id: "na-static".to_string(),
                parent: PrefixParentSource::Static {
                    base_prefix: v6("fd00::"),
                    parent_prefix_len: 60,
                },
                ra: None,
                na: Some(NaPrefixConfig { pool_index: 1 }),
                pd: None,
            },
        ],
        dhcpv6: Some(DHCPv6ServerConfig {
            enable: true,
            ia_na: Some(DHCPv6IANAConfig {
                max_prefix_len: 64,
                pool_start: 0x100,
                pool_end: Some(0x200),
                preferred_lifetime: 300,
                valid_lifetime: 600,
            }),
            ia_pd: None,
        }),
    };

    assert!(config.validate().is_err());
}

#[test]
fn v2_same_group_rejects_ra_pd_overlap() {
    let config = LanPrefixGroupConfig {
        group_id: "same-parent".to_string(),
        parent: PrefixParentSource::Pd {
            depend_iface: "eth0".to_string(),
            planned_parent_prefix_len: 60,
        },
        ra: Some(RaPrefixConfig {
            pool_index: 1,
            preferred_lifetime: 300,
            valid_lifetime: 600,
        }),
        na: None,
        pd: Some(PdPrefixRangeConfig { pool_len: 64, start_index: 1, end_index: 1 }),
    };

    assert!(validate_prefix_groups(&[config]).is_err());
}

#[test]
fn v2_same_group_allows_ra_na_share() {
    let config = LanPrefixGroupConfig {
        group_id: "same-parent".to_string(),
        parent: PrefixParentSource::Pd {
            depend_iface: "eth0".to_string(),
            planned_parent_prefix_len: 60,
        },
        ra: Some(RaPrefixConfig {
            pool_index: 1,
            preferred_lifetime: 300,
            valid_lifetime: 600,
        }),
        na: Some(NaPrefixConfig { pool_index: 1 }),
        pd: None,
    };

    assert!(validate_prefix_groups(&[config]).is_ok());
}

#[test]
fn v2_pd_parent_capacity_falls_back_to_planned_prefix_len_without_runtime_prefix() {
    let config = LanPrefixGroupConfig {
        group_id: "capacity-ok".to_string(),
        parent: PrefixParentSource::Pd {
            depend_iface: "eth0".to_string(),
            planned_parent_prefix_len: 60,
        },
        ra: None,
        na: Some(NaPrefixConfig { pool_index: 15 }),
        pd: None,
    };

    assert!(config.validate().is_ok());
}

#[test]
fn v2_pd_parent_capacity_rejects_indices_beyond_planned_prefix_len_without_runtime_prefix() {
    let config = LanPrefixGroupConfig {
        group_id: "capacity-bad".to_string(),
        parent: PrefixParentSource::Pd {
            depend_iface: "eth0".to_string(),
            planned_parent_prefix_len: 60,
        },
        ra: None,
        na: Some(NaPrefixConfig { pool_index: 16 }),
        pd: None,
    };

    assert!(config.validate().is_err());
}

#[test]
fn v2_pd_parent_capacity_prefers_runtime_prefix_len_when_available() {
    let config = LanPrefixGroupConfig {
        group_id: "capacity-runtime".to_string(),
        parent: PrefixParentSource::Pd {
            depend_iface: "eth0".to_string(),
            planned_parent_prefix_len: 60,
        },
        ra: None,
        na: Some(NaPrefixConfig { pool_index: 38 }),
        pd: None,
    };

    let mut prefix_infos = PrefixInfoMap::new();
    prefix_infos.insert(
        "eth0".to_string(),
        Some(LDIAPrefix {
            preferred_lifetime: 300,
            valid_lifetime: 600,
            prefix_len: 56,
            prefix_ip: v6("2001:db8::"),
        }),
    );

    assert!(config.validate_with_prefix_infos(Some(&prefix_infos)).is_ok());
}

#[test]
fn v2_same_runtime_pd_parent_conflicts_even_if_planned_lengths_differ() {
    let groups = vec![
        LanPrefixGroupConfig {
            group_id: "group-a".to_string(),
            parent: PrefixParentSource::Pd {
                depend_iface: "eth0".to_string(),
                planned_parent_prefix_len: 60,
            },
            ra: Some(RaPrefixConfig {
                pool_index: 1,
                preferred_lifetime: 300,
                valid_lifetime: 600,
            }),
            na: None,
            pd: None,
        },
        LanPrefixGroupConfig {
            group_id: "group-b".to_string(),
            parent: PrefixParentSource::Pd {
                depend_iface: "eth0".to_string(),
                planned_parent_prefix_len: 56,
            },
            ra: None,
            na: None,
            pd: Some(PdPrefixRangeConfig { pool_len: 64, start_index: 1, end_index: 1 }),
        },
    ];

    let mut prefix_infos = PrefixInfoMap::new();
    prefix_infos.insert(
        "eth0".to_string(),
        Some(LDIAPrefix {
            preferred_lifetime: 300,
            valid_lifetime: 600,
            prefix_len: 56,
            prefix_ip: v6("2001:db8::"),
        }),
    );

    assert!(validate_prefix_groups_with_prefix_infos(&groups, Some(&prefix_infos)).is_err());
}

#[test]
fn v2_cross_interface_conflicts_when_runtime_pd_prefix_matches_across_ifaces() {
    let new_config = LanIPv6ServiceConfigV2 {
        iface_name: "lan-a".to_string(),
        enable: true,
        config: LanIPv6ConfigV2 {
            mode: IPv6ServiceMode::Slaac,
            ad_interval: 300,
            ra_flag: ra_flag_default(),
            prefix_groups: vec![LanPrefixGroupConfig {
                group_id: "group-a".to_string(),
                parent: PrefixParentSource::Pd {
                    depend_iface: "wan0".to_string(),
                    planned_parent_prefix_len: 60,
                },
                ra: Some(RaPrefixConfig {
                    pool_index: 0,
                    preferred_lifetime: 300,
                    valid_lifetime: 600,
                }),
                na: None,
                pd: None,
            }],
            dhcpv6: None,
        },
    };

    let other_configs = vec![LanIPv6ServiceConfigV2 {
        iface_name: "lan-b".to_string(),
        enable: true,
        config: LanIPv6ConfigV2 {
            mode: IPv6ServiceMode::Stateful,
            ad_interval: 300,
            ra_flag: RouterFlags::from(0xc0u8),
            prefix_groups: vec![LanPrefixGroupConfig {
                group_id: "group-b".to_string(),
                parent: PrefixParentSource::Pd {
                    depend_iface: "wan1".to_string(),
                    planned_parent_prefix_len: 56,
                },
                ra: None,
                na: None,
                pd: Some(PdPrefixRangeConfig { pool_len: 64, start_index: 0, end_index: 0 }),
            }],
            dhcpv6: Some(DHCPv6ServerConfig {
                enable: true,
                ia_na: Some(DHCPv6IANAConfig {
                    max_prefix_len: 64,
                    pool_start: 0x100,
                    pool_end: None,
                    preferred_lifetime: 300,
                    valid_lifetime: 600,
                }),
                ia_pd: None,
            }),
        },
    }];

    let mut prefix_infos = PrefixInfoMap::new();
    prefix_infos.insert(
        "wan0".to_string(),
        Some(LDIAPrefix {
            preferred_lifetime: 300,
            valid_lifetime: 600,
            prefix_len: 56,
            prefix_ip: v6("2001:db8::"),
        }),
    );
    prefix_infos.insert(
        "wan1".to_string(),
        Some(LDIAPrefix {
            preferred_lifetime: 300,
            valid_lifetime: 600,
            prefix_len: 56,
            prefix_ip: v6("2001:db8::"),
        }),
    );

    assert!(validate_cross_interface_v2_with_prefix_infos(
        &new_config,
        &other_configs,
        Some(&prefix_infos),
    )
    .is_err());
}

#[test]
fn v2_cross_interface_ra_and_na_cannot_share_same_prefix() {
    let new_config = LanIPv6ServiceConfigV2 {
        iface_name: "lan-a".to_string(),
        enable: true,
        config: LanIPv6ConfigV2 {
            mode: IPv6ServiceMode::Slaac,
            ad_interval: 300,
            ra_flag: ra_flag_default(),
            prefix_groups: vec![LanPrefixGroupConfig {
                group_id: "group-a".to_string(),
                parent: PrefixParentSource::Static {
                    base_prefix: v6("fd00::"),
                    parent_prefix_len: 56,
                },
                ra: Some(RaPrefixConfig {
                    pool_index: 0,
                    preferred_lifetime: 300,
                    valid_lifetime: 600,
                }),
                na: None,
                pd: None,
            }],
            dhcpv6: None,
        },
    };

    let other_configs = vec![LanIPv6ServiceConfigV2 {
        iface_name: "lan-b".to_string(),
        enable: true,
        config: LanIPv6ConfigV2 {
            mode: IPv6ServiceMode::Stateful,
            ad_interval: 300,
            ra_flag: RouterFlags::from(0xc0u8),
            prefix_groups: vec![LanPrefixGroupConfig {
                group_id: "group-b".to_string(),
                parent: PrefixParentSource::Static {
                    base_prefix: v6("fd00::"),
                    parent_prefix_len: 56,
                },
                ra: None,
                na: Some(NaPrefixConfig { pool_index: 0 }),
                pd: None,
            }],
            dhcpv6: Some(DHCPv6ServerConfig {
                enable: true,
                ia_na: Some(DHCPv6IANAConfig {
                    max_prefix_len: 64,
                    pool_start: 0x100,
                    pool_end: None,
                    preferred_lifetime: 300,
                    valid_lifetime: 600,
                }),
                ia_pd: None,
            }),
        },
    }];

    assert!(validate_cross_interface_v2(&new_config, &other_configs).is_err());
}

fn reason(r: Result<(), ServiceConfigError>) -> String {
    match r {
        Ok(()) => String::new(),
        Err(ServiceConfigError::InvalidConfig { reason }) => reason,
    }
}

fn static_group(id: &str, len: u8) -> LanPrefixGroupConfig {
    LanPrefixGroupConfig {
        group_id: id.to_string(),
        parent: PrefixParentSource::Static { base_prefix: v6("fd00::"), parent_prefix_len: len },
        ra: None,
        na: None,
        pd: None,
    }
}

fn ra(pool_index: u32) -> Option<RaPrefixConfig> {
    Some(RaPrefixConfig { pool_index, preferred_lifetime: 300, valid_lifetime: 600 })
}

fn pd(pool_len: u8, start_index: u32, end_index: u32) -> Option<PdPrefixRangeConfig> {
    Some(PdPrefixRangeConfig { pool_len, start_index, end_index })
}

#[test]
fn group_refusals_name_the_first_fault() {
    assert_eq!(reason(static_group(" \t", 60).validate()), "Prefix group id must not be empty");
    assert_eq!(
        reason(static_group("g", 0).validate()),
        "Static parent_prefix_len (0) must be between 1 and 127"
    );
    assert_eq!(
        reason(static_group("g", 128).validate()),
        "Static parent_prefix_len (128) must be between 1 and 127"
    );
    let mut g = static_group("g", 60);
    g.pd = pd(0, 0, 0);
    assert_eq!(reason(g.validate()), "PD pool_len (0) must be between 1 and 128");
    g.pd = pd(62, 3, 2);
    assert_eq!(reason(g.validate()), "PD range end_index (2) must be >= start_index (3)");
    g.pd = pd(60, 0, 0);
    assert_eq!(
        reason(g.validate()),
        "IA_PD pool_len (60) must be greater than parent_prefix_len (60)"
    );
    g.pd = pd(62, 0, 4);
    assert_eq!(reason(g.validate()), "IA_PD range 0-4 exceeds available capacity for pool_len /62");
    g.pd = pd(62, 0, 3);
    assert_eq!(reason(g.validate()), "");
    g.ra = ra(16);
    assert_eq!(reason(g.validate()), "RA pool_index (16) exceeds available capacity");
    let mut short = static_group("g", 64);
    short.na = Some(NaPrefixConfig { pool_index: 0 });
    assert_eq!(
        reason(short.validate()),
        "IA_NA requires parent_prefix_len (64) to be less than 64"
    );
}

#[test]
fn block_zero_of_a_delegated_parent_is_reserved() {
    let mut g = static_group("g", 60);
    g.parent = PrefixParentSource::Pd {
        depend_iface: "wan".to_string(),
        planned_parent_prefix_len: 60,
    };
    g.ra = ra(0);
    assert_eq!(
        reason(g.validate()),
        "RA pool_index (0) must be >= 1 when parent is PD-derived (subnet 0 is reserved for WAN)"
    );
    g.ra = ra(1);
    assert!(g.validate().is_ok());
    g.pd = pd(64, 0, 2);
    assert_eq!(
        reason(g.validate()),
        "IA_PD start_index (0) must be >= 1 when parent is PD-derived (subnet 0 is reserved for WAN)"
    );
}

#[test]
fn groups_under_one_parent_stay_apart() {
    let mut a = static_group("a", 56);
    a.ra = ra(5);
    let mut b = static_group("b", 56);
    b.pd = pd(62, 2, 3);
    assert!(validate_prefix_groups(&[a.clone(), b.clone()]).is_ok());
    b.pd = pd(62, 1, 1);
    assert_eq!(
        reason(validate_prefix_groups(&[a.clone(), b.clone()])),
        "Prefix group results conflict under the same parent prefix"
    );
    let mut c = static_group("c", 56);
    c.pd = pd(64, 1, 1);
    assert_eq!(
        reason(validate_prefix_groups(&[b, c])),
        "IA_PD ranges conflict under the same parent prefix"
    );
    let mut d = static_group("d", 56);
    d.na = Some(NaPrefixConfig { pool_index: 5 });
    assert!(validate_prefix_groups(&[a, d]).is_err());
}

#[test]
fn parents_are_known_by_the_delegated_prefix() {
    let parent = PrefixParentSource::Pd {
        depend_iface: "wan".to_string(),
        planned_parent_prefix_len: 60,
    };
    let mut infos = PrefixInfoMap::new();
    infos.insert("other".to_string(), None);
    assert_eq!(
        parent.expanded_parent_key(Some(&infos)),
        ExpandedParentKey::PdFallback("wan".to_string(), 60)
    );
    infos.insert(
        "wan".to_string(),
        Some(LDIAPrefix {
            preferred_lifetime: 1,
            valid_lifetime: 2,
            prefix_len: 56,
            prefix_ip: v6("2001:db8:0:1ff::7"),
        }),
    );
    assert_eq!(
        parent.expanded_parent_key(Some(&infos)),
        ExpandedParentKey::PdActual(v6("2001:db8:0:100::"), 56)
    );
    assert_eq!(parent.resolved_parent_prefix_len(Some(&infos)), 56);
    assert_eq!(parent.resolved_parent_prefix_len(None), 60);
    assert_eq!(parent.parent_prefix_len(), 60);
}

#[test]
fn active_entries_follow_the_mode() {
    let mut g = static_group("g", 56);
    g.ra = ra(1);
    g.na = Some(NaPrefixConfig { pool_index: 2 });
    g.pd = pd(62, 3, 4);
    assert_eq!(g.active_entries(IPv6ServiceMode::Slaac).len(), 1);
    assert_eq!(g.active_entries(IPv6ServiceMode::Stateful).len(), 2);
    let all = g.active_entries(IPv6ServiceMode::SlaacDhcpv6);
    let ranges: Vec<(u32, u32, u8)> =
        all.iter().map(|e| (e.start_index, e.end_index, e.pool_len)).collect();
    assert_eq!(ranges, vec![(1, 1, 64), (2, 2, 64), (3, 4, 62)]);
}

#[test]
fn modes_ask_for_their_services() {
    let mut config = LanIPv6ConfigV2 {
        mode: IPv6ServiceMode::Slaac,
        ad_interval: 300,
        ra_flag: RouterFlags::from(0u8),
        prefix_groups: vec![],
        dhcpv6: None,
    };
    assert_eq!(reason(config.validate()), "Slaac mode requires at least one RA prefix group");
    let mut g = static_group("g", 56);
    g.ra = ra(1);
    config.prefix_groups = vec![g];
    assert_eq!(reason(config.validate()), "");
    config.ra_flag = ra_flag_default();
    assert_eq!(reason(config.validate()), "Slaac mode requires M flag to be 0");
    config.mode = IPv6ServiceMode::Stateful;
    assert_eq!(reason(config.validate()), "Stateful mode requires at least one IA_NA prefix group");
    config.mode = IPv6ServiceMode::SlaacDhcpv6;
    assert_eq!(
        reason(config.validate()),
        "SlaacDhcpv6 mode requires at least one DHCPv6 prefix group (NA or PD)"
    );
    config.prefix_groups[0].na = Some(NaPrefixConfig { pool_index: 1 });
    assert_eq!(reason(config.validate()), "SlaacDhcpv6 mode requires DHCPv6 configuration");
    config.dhcpv6 = Some(DHCPv6ServerConfig::default());
    assert_eq!(reason(config.validate()), "SlaacDhcpv6 mode requires DHCPv6 to be enabled");
    config.dhcpv6 = Some(DHCPv6ServerConfig { enable: true, ia_na: None, ia_pd: None });
    assert_eq!(reason(config.validate()), "");
    config.prefix_groups[0].parent =
        PrefixParentSource::Static { base_prefix: v6("2001:db8::"), parent_prefix_len: 56 };
    assert_eq!(
        reason(config.validate()),
        "SlaacDhcpv6 mode requires RA prefix groups to be ULA (fc00::/7), got: 2001:db8::"
    );
}

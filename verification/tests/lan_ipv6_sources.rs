//! Sources of prefixes on LAN interfaces.
use landscape::lan_ipv6::config::{IPv6ServiceMode, LanIPv6ServiceConfigV2};
use landscape::lan_ipv6::ipv6_ra::ra_flag_default;
use landscape::lan_ipv6::prefix_group::PrefixParentSource;
use landscape::lan_ipv6::source_config::{
    validate_cross_interface, validate_source_entry, validate_sources_no_conflict, LanIPv6Config,
    LanIPv6ServiceConfig, LanIPv6SourceConfig,
};
use landscape::net::Ipv6Addr;

/// The address that a text with at most one `::` stands for.
fn v6(text: &str) -> Ipv6Addr {
    let (head, tail) = match text.split_once("::") {
        Some((head, tail)) => (head, tail),
        None => (text, ""),
    };
    let groups = |part: &str| -> Vec<u16> {
        part.split(':')
            .filter(|g| !g.is_empty())
            .map(|g| u16::from_str_radix(g, 16).unwrap())
            .collect()
    };
    let (head, tail) = (groups(head), groups(tail));
    let mut all = [0u16; 8];
    all[..head.len()].copy_from_slice(&head);
    all[8 - tail.len()..].copy_from_slice(&tail);
    Ipv6Addr::new(all[0], all[1], all[2], all[3], all[4], all[5], all[6], all[7])
}

fn make_service_config(iface: &str, sources: Vec<LanIPv6SourceConfig>) -> LanIPv6ServiceConfig {
    make_service_config_with_mode(iface, sources, IPv6ServiceMode::SlaacDhcpv6)
}

fn make_service_config_with_mode(
    iface: &str,
    sources: Vec<LanIPv6SourceConfig>,
    mode: IPv6ServiceMode,
) -> LanIPv6ServiceConfig {
    LanIPv6ServiceConfig {
        iface_name: iface.to_string(),
        enable: true,
        config: LanIPv6Config {
            mode,
            ad_interval: 300,
            ra_flag: ra_flag_default(),
            sources,
            dhcpv6: None,
        },
    }
}

#[test]
fn lan_static_ra_na_same_index_ok() {
    let sources = vec![
        LanIPv6SourceConfig::RaStatic {
            base_prefix: v6("fd00::"),
            pool_index: 1,
            preferred_lifetime: 300,
            valid_lifetime: 600,
        },
        LanIPv6SourceConfig::NaStatic {
            base_prefix: v6("fd00::"),
            pool_index: 1,
        },
    ];
    assert!(validate_sources_no_conflict(&sources).is_ok());
}

#[test]
fn lan_static_ra_ra_same_index_conflict() {
    let sources = vec![
        LanIPv6SourceConfig::RaStatic {
            base_prefix: v6("fd00::"),
            pool_index: 1,
            preferred_lifetime: 300,
            valid_lifetime: 600,
        },
        LanIPv6SourceConfig::RaStatic {
            base_prefix: v6("fd00::"),
            pool_index: 1,
            preferred_lifetime: 300,
            valid_lifetime: 600,
        },
    ];
    assert!(validate_sources_no_conflict(&sources).is_err());
}

#[test]
fn lan_static_na_na_same_index_conflict() {
    let sources = vec![
        LanIPv6SourceConfig::NaStatic {
            base_prefix: v6("fd00::"),
            pool_index: 1,
        },
        LanIPv6SourceConfig::NaStatic {
            base_prefix: v6("fd00::"),
            pool_index: 1,
        },
    ];
    assert!(validate_sources_no_conflict(&sources).is_err());
}

#[test]
fn lan_static_ra_pd_block_overlap() {
    let sources = vec![
        LanIPv6SourceConfig::RaStatic {
            base_prefix: v6("fd00::"),
            pool_index: 1,
            preferred_lifetime: 300,
            valid_lifetime: 600,
        },
        LanIPv6SourceConfig::PdStatic {
            base_prefix: v6("fd00::"),
            base_prefix_len: 48,
            pool_index: 0,
            pool_len: 62,
        },
    ];
    assert!(validate_sources_no_conflict(&sources).is_err());
}

#[test]
fn lan_static_pd_same_block_conflict() {
    let sources = vec![
        LanIPv6SourceConfig::PdStatic {
            base_prefix: v6("fd00::"),
            base_prefix_len: 48,
            pool_index: 0,
            pool_len: 62,
        },
        LanIPv6SourceConfig::PdStatic {
            base_prefix: v6("fd00::"),
            base_prefix_len: 48,
            pool_index: 0,
            pool_len: 62,
        },
    ];
    assert!(validate_sources_no_conflict(&sources).is_err());
}

#[test]
fn lan_static_pd_adjacent_blocks_ok() {
    let sources = vec![
        LanIPv6SourceConfig::PdStatic {
            base_prefix: v6("fd00::"),
            base_prefix_len: 48,
            pool_index: 0,
            pool_len: 62,
        },
        LanIPv6SourceConfig::PdStatic {
            base_prefix: v6("fd00::"),
            base_prefix_len: 48,
            pool_index: 1,
            pool_len: 62,
        },
    ];
    assert!(validate_sources_no_conflict(&sources).is_ok());
}

#[test]
fn lan_pd_ra_na_same_index_ok() {
    let sources = vec![
        LanIPv6SourceConfig::RaPd {
            depend_iface: "eth0".to_string(),
            pool_index: 0,
            preferred_lifetime: 300,
            valid_lifetime: 600,
        },
        LanIPv6SourceConfig::NaPd { depend_iface: "eth0".to_string(), pool_index: 0 },
    ];
    assert!(validate_sources_no_conflict(&sources).is_ok());
}

#[test]
fn lan_pd_ra_index_inside_pd_block_conflict() {
    let sources = vec![
        LanIPv6SourceConfig::RaPd {
            depend_iface: "eth0".to_string(),
            pool_index: 3,
            preferred_lifetime: 300,
            valid_lifetime: 600,
        },
        LanIPv6SourceConfig::PdPd {
            depend_iface: "eth0".to_string(),
            max_source_prefix_len: 56,
            pool_index: 0,
            pool_len: 62,
        },
    ];
    assert!(validate_sources_no_conflict(&sources).is_err());
}

#[test]
fn lan_pd_pd_adjacent_blocks_ok() {
    let sources = vec![
        LanIPv6SourceConfig::PdPd {
            depend_iface: "eth0".to_string(),
            max_source_prefix_len: 56,
            pool_index: 0,
            pool_len: 62,
        },
        LanIPv6SourceConfig::PdPd {
            depend_iface: "eth0".to_string(),
            max_source_prefix_len: 56,
            pool_index: 1,
            pool_len: 62,
        },
    ];
    assert!(validate_sources_no_conflict(&sources).is_ok());
}

#[test]
fn lan_pd_pd_different_pool_len_overlap() {
    let sources = vec![
        LanIPv6SourceConfig::PdPd {
            depend_iface: "eth0".to_string(),
            max_source_prefix_len: 56,
            pool_index: 0,
            pool_len: 62,
        },
        LanIPv6SourceConfig::PdPd {
            depend_iface: "eth0".to_string(),
            max_source_prefix_len: 56,
            pool_index: 1,
            pool_len: 63,
        },
    ];
    assert!(validate_sources_no_conflict(&sources).is_err());
}

#[test]
fn lan_pd_pd_different_pool_len_no_overlap() {
    let sources = vec![
        LanIPv6SourceConfig::PdPd {
            depend_iface: "eth0".to_string(),
            max_source_prefix_len: 56,
            pool_index: 0,
            pool_len: 62,
        },
        LanIPv6SourceConfig::PdPd {
            depend_iface: "eth0".to_string(),
            max_source_prefix_len: 56,
            pool_index: 7,
            pool_len: 64,
        },
    ];
    assert!(validate_sources_no_conflict(&sources).is_ok());
}

#[test]
fn lan_static_diff_prefix_same_index_ok() {
    let sources = vec![
        LanIPv6SourceConfig::RaStatic {
            base_prefix: v6("fd00::"),
            pool_index: 1,
            preferred_lifetime: 300,
            valid_lifetime: 600,
        },
        LanIPv6SourceConfig::RaStatic {
            base_prefix: v6("2001:db8::"),
            pool_index: 1,
            preferred_lifetime: 300,
            valid_lifetime: 600,
        },
    ];
    assert!(validate_sources_no_conflict(&sources).is_ok());
}

#[test]
fn lan_pd_diff_iface_same_index_ok() {
    let sources = vec![
        LanIPv6SourceConfig::RaPd {
            depend_iface: "eth0".to_string(),
            pool_index: 1,
            preferred_lifetime: 300,
            valid_lifetime: 600,
        },
        LanIPv6SourceConfig::RaPd {
            depend_iface: "eth1".to_string(),
            pool_index: 1,
            preferred_lifetime: 300,
            valid_lifetime: 600,
        },
    ];
    assert!(validate_sources_no_conflict(&sources).is_ok());
}

#[test]
fn lan_empty_sources_ok() {
    assert!(validate_sources_no_conflict(&[]).is_ok());
}

#[test]
fn lan_single_entry_ok() {
    let sources = vec![LanIPv6SourceConfig::RaStatic {
        base_prefix: v6("fd00::"),
        pool_index: 0,
        preferred_lifetime: 300,
        valid_lifetime: 600,
    }];
    assert!(validate_sources_no_conflict(&sources).is_ok());
}

#[test]
fn lan_pool_len_not_greater_than_parent_len() {
    let src = LanIPv6SourceConfig::PdStatic {
        base_prefix: v6("fd00::"),
        base_prefix_len: 48,
        pool_index: 0,
        pool_len: 48,
    };
    assert!(validate_source_entry(&src).is_err());
}

#[test]
fn lan_pool_len_exceeds_128() {
    let src = LanIPv6SourceConfig::PdStatic {
        base_prefix: v6("fd00::"),
        base_prefix_len: 48,
        pool_index: 0,
        pool_len: 129,
    };
    assert!(validate_source_entry(&src).is_err());
}

#[test]
fn lan_pool_index_out_of_range() {
    let src = LanIPv6SourceConfig::PdStatic {
        base_prefix: v6("fd00::"),
        base_prefix_len: 48,
        pool_index: 16384,
        pool_len: 62,
    };
    assert!(validate_source_entry(&src).is_err());
}

#[test]
fn lan_cross_iface_same_pd_same_index_conflict() {
    let new = make_service_config(
        "lan1",
        vec![LanIPv6SourceConfig::RaPd {
            depend_iface: "eth0".to_string(),
            pool_index: 0,
            preferred_lifetime: 300,
            valid_lifetime: 600,
        }],
    );
    let others = vec![make_service_config(
        "lan2",
        vec![LanIPv6SourceConfig::RaPd {
            depend_iface: "eth0".to_string(),
            pool_index: 0,
            preferred_lifetime: 300,
            valid_lifetime: 600,
        }],
    )];
    assert!(validate_cross_interface(&new, &others).is_err());
}

#[test]
fn lan_cross_iface_same_pd_diff_block_ok() {
    let new = make_service_config(
        "lan1",
        vec![LanIPv6SourceConfig::PdPd {
            depend_iface: "eth0".to_string(),
            max_source_prefix_len: 56,
            pool_index: 0,
            pool_len: 62,
        }],
    );
    let others = vec![make_service_config(
        "lan2",
        vec![LanIPv6SourceConfig::PdPd {
            depend_iface: "eth0".to_string(),
            max_source_prefix_len: 56,
            pool_index: 1,
            pool_len: 62,
        }],
    )];
    assert!(validate_cross_interface(&new, &others).is_ok());
}

#[test]
fn lan_cross_iface_diff_pd_same_index_ok() {
    let new = make_service_config(
        "lan1",
        vec![LanIPv6SourceConfig::RaPd {
            depend_iface: "eth0".to_string(),
            pool_index: 0,
            preferred_lifetime: 300,
            valid_lifetime: 600,
        }],
    );
    let others = vec![make_service_config(
        "lan2",
        vec![LanIPv6SourceConfig::RaPd {
            depend_iface: "eth1".to_string(),
            pool_index: 0,
            preferred_lifetime: 300,
            valid_lifetime: 600,
        }],
    )];
    assert!(validate_cross_interface(&new, &others).is_ok());
}

#[test]
fn lan_cross_iface_ra_static_vs_pd_static_overlap() {
    let new = make_service_config(
        "lan1",
        vec![LanIPv6SourceConfig::RaStatic {
            base_prefix: v6("fd00::"),
            pool_index: 1,
            preferred_lifetime: 300,
            valid_lifetime: 600,
        }],
    );
    let others = vec![make_service_config(
        "lan2",
        vec![LanIPv6SourceConfig::PdStatic {
            base_prefix: v6("fd00::"),
            base_prefix_len: 48,
            pool_index: 0,
            pool_len: 62,
        }],
    )];
    assert!(validate_cross_interface(&new, &others).is_err());
}

#[test]
fn lan_legacy_service_config_converts_to_v2() {
    let legacy = make_service_config(
        "lan1",
        vec![
            LanIPv6SourceConfig::RaPd {
                depend_iface: "eth0".to_string(),
                pool_index: 1,
                preferred_lifetime: 300,
                valid_lifetime: 600,
            },
            LanIPv6SourceConfig::PdStatic {
                base_prefix: v6("fd00::"),
                base_prefix_len: 56,
                pool_index: 2,
                pool_len: 60,
            },
        ],
    );

    let converted: LanIPv6ServiceConfigV2 = legacy.into();
    assert_eq!(converted.config.prefix_groups.len(), 2);
    assert!(matches!(
        converted.config.prefix_groups[0].parent,
        PrefixParentSource::Pd { planned_parent_prefix_len: 60, .. }
    ));
    assert!(matches!(
        converted.config.prefix_groups[1].parent,
        PrefixParentSource::Static { parent_prefix_len: 56, .. }
    ));
}

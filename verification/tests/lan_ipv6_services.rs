//! The DHCPv6 server, router advertisements and the older configurations.
use landscape::error::ServiceConfigError;
use landscape::lan_ipv6::config::{IPv6ServiceMode, LanIPv6ServiceConfigV2, SourceServiceKind};
use landscape::lan_ipv6::dhcpv6_config::{
    default_preferred_lifetime, default_valid_lifetime, DHCPv6IANAConfig, DHCPv6IAPDConfig,
    DHCPv6ServerConfig,
};
use landscape::lan_ipv6::ipv6_ra::{
    ra_flag_default, IPV6RAConfig, IPV6RaConfigSource, IPv6RaPdConfig, IPv6RaStaticConfig,
    RouterFlags,
};
use landscape::lan_ipv6::source_config::{
    validate_sources_no_conflict, LanIPv6Config, LanIPv6ServiceConfig, LanIPv6SourceConfig,
};
use landscape::net::Ipv6Addr;
use landscape::zone::{ServiceKind, ZoneAwareConfig, ZoneRequirement};

fn reason(r: Result<(), ServiceConfigError>) -> String {
    match r {
        Ok(()) => String::new(),
        Err(ServiceConfigError::InvalidConfig { reason }) => reason,
    }
}

fn ula() -> Ipv6Addr {
    Ipv6Addr::new(0xfd00, 0, 0, 0, 0, 0, 0, 0)
}

#[test]
fn validate_allows_temporarily_disabling_ia_na_and_ia_pd() {
    let config = DHCPv6ServerConfig { enable: true, ia_na: None, ia_pd: None };

    assert!(config.validate().is_ok());
}

#[test]
fn lifetimes_default_to_one_and_two_hours() {
    assert_eq!((default_preferred_lifetime(), default_valid_lifetime()), (3600, 7200));
}

#[test]
fn dhcpv6_faults_are_named() {
    let na = DHCPv6IANAConfig {
        max_prefix_len: 64,
        pool_start: 0x100,
        pool_end: Some(0x200),
        preferred_lifetime: 300,
        valid_lifetime: 600,
    };
    let pd = DHCPv6IAPDConfig {
        delegate_prefix_len: 62,
        preferred_lifetime: 300,
        valid_lifetime: 600,
    };
    let check = |na: DHCPv6IANAConfig, pd: DHCPv6IAPDConfig| {
        reason(DHCPv6ServerConfig { enable: true, ia_na: Some(na), ia_pd: Some(pd) }.validate())
    };
    assert_eq!(check(na, pd), "");
    assert_eq!(
        check(DHCPv6IANAConfig { max_prefix_len: 128, ..na }, pd),
        "IA_NA max_prefix_len (128) must be between 1 and 127"
    );
    assert_eq!(
        check(DHCPv6IANAConfig { pool_end: Some(0x100), ..na }, pd),
        "IA_NA pool_end (256) must be > pool_start (256)"
    );
    assert_eq!(
        check(DHCPv6IANAConfig { valid_lifetime: 0, ..na }, pd),
        "IA_NA valid_lifetime must be > 0"
    );
    assert_eq!(
        check(DHCPv6IANAConfig { preferred_lifetime: 601, ..na }, pd),
        "IA_NA preferred_lifetime must be <= valid_lifetime"
    );
    assert_eq!(
        check(na, DHCPv6IAPDConfig { delegate_prefix_len: 0, ..pd }),
        "IA_PD delegate_prefix_len (0) must be between 1 and 128"
    );
    assert_eq!(
        check(na, DHCPv6IAPDConfig { valid_lifetime: 0, ..pd }),
        "IA_PD valid_lifetime must be > 0"
    );
    assert_eq!(
        check(na, DHCPv6IAPDConfig { preferred_lifetime: 700, ..pd }),
        "IA_PD preferred_lifetime must be <= valid_lifetime"
    );
    let off = DHCPv6ServerConfig {
        enable: false,
        ia_na: Some(DHCPv6IANAConfig { max_prefix_len: 0, ..na }),
        ia_pd: None,
    };
    assert!(off.validate().is_ok());
}

#[test]
fn flags_byte_goes_there_and_back() {
    for byte in 0..=255u8 {
        assert_eq!(u8::from(RouterFlags::from(byte)), byte);
    }
    let flags = RouterFlags::from(0b1011_0110);
    assert!(flags.managed_address_config && !flags.other_config && flags.home_agent);
    assert_eq!((flags.prf, flags.nd_proxy, flags.reserved), (2, true, 2));
    assert_eq!(u8::from(ra_flag_default()), 0xc0);
}

#[test]
fn advertised_sources_are_distinct() {
    let fixed = |index: u32| {
        IPV6RaConfigSource::Static(IPv6RaStaticConfig {
            base_prefix: ula(),
            sub_prefix_len: 64,
            sub_index: index,
            ra_preferred_lifetime: 300,
            ra_valid_lifetime: 300,
        })
    };
    let pd = |iface: &str, index: u32| {
        IPV6RaConfigSource::Pd(IPv6RaPdConfig {
            depend_iface: iface.to_string(),
            prefix_len: 64,
            subnet_index: index,
            ra_preferred_lifetime: 300,
            ra_valid_lifetime: 300,
        })
    };
    let mut config = IPV6RAConfig::new("wan".to_string());
    assert!(config.validate().is_ok());
    assert_eq!(config.source.len(), 1);
    config.source = vec![fixed(0), fixed(1)];
    assert_eq!(reason(config.validate()), "Duplicate base_prefix found: fd00::");
    config.source = vec![pd("wan", 0), pd("wan", 1)];
    assert_eq!(reason(config.validate()), "Duplicate depend_iface found: wan");
    config.source = vec![fixed(3), pd("wan", 3)];
    assert_eq!(reason(config.validate()), "Duplicate sub_index/subnet_index found: 3");
    config.source = vec![fixed(3), pd("wan", 4), pd("wan2", 5)];
    assert!(config.validate().is_ok());
}

#[test]
fn source_conflicts_are_described() {
    let sources = vec![
        LanIPv6SourceConfig::RaPd {
            depend_iface: "eth0".to_string(),
            pool_index: 5,
            preferred_lifetime: 300,
            valid_lifetime: 600,
        },
        LanIPv6SourceConfig::PdPd {
            depend_iface: "eth0".to_string(),
            max_source_prefix_len: 56,
            pool_index: 1,
            pool_len: 62,
        },
    ];
    assert_eq!(
        reason(validate_sources_no_conflict(&sources)),
        "Source conflict under parent pd(eth0): (pool_index=5, effective_index=5, pool_len=64) \
         overlaps with (pool_index=1, effective_index=1, pool_len=62); \
         PD-derived sources reserve WAN subnet 0"
    );
}

#[test]
fn default_sources_and_their_modes() {
    let mut config = LanIPv6Config::new("eth0".to_string());
    assert_eq!(reason(config.validate()), "Slaac mode requires M flag to be 0");
    config.ra_flag = RouterFlags::from(0u8);
    assert!(config.validate().is_ok());
    assert_eq!(config.sources_by_kind(SourceServiceKind::Ra).len(), 1);
    assert_eq!(config.sources_by_kind(SourceServiceKind::Na).len(), 0);
    config.mode = IPv6ServiceMode::Stateful;
    assert_eq!(config.active_sources().len(), 0);
    assert_eq!(reason(config.validate()), "Stateful mode requires M=1 and O=1");
    config.ra_flag = ra_flag_default();
    assert_eq!(
        reason(config.validate()),
        "Stateful mode requires at least one DHCPv6 NA prefix source"
    );
    config.mode = IPv6ServiceMode::SlaacDhcpv6;
    assert_eq!(reason(config.validate()), "SlaacDhcpv6 mode only allows Static RA sources");
}

#[test]
fn older_sources_become_named_groups() {
    let config = LanIPv6ServiceConfig {
        iface_name: "lan1".to_string(),
        enable: true,
        config: LanIPv6Config {
            mode: IPv6ServiceMode::SlaacDhcpv6,
            ad_interval: 300,
            ra_flag: ra_flag_default(),
            sources: vec![
                LanIPv6SourceConfig::NaStatic { base_prefix: ula(), pool_index: 1 },
                LanIPv6SourceConfig::PdPd {
                    depend_iface: "a//b".to_string(),
                    max_source_prefix_len: 56,
                    pool_index: 2,
                    pool_len: 60,
                },
            ],
            dhcpv6: None,
        },
    };
    assert_eq!(config.iface_name(), "lan1");
    assert_eq!(config.get_store_key(), "lan1");
    let v2 = LanIPv6ServiceConfigV2::from(config);
    assert_eq!(v2.get_id(), "lan1");
    let ids: Vec<&str> = v2.config.prefix_groups.iter().map(|g| g.group_id.as_str()).collect();
    assert_eq!(ids, vec!["legacy:static:na:fd00::/60:0", "legacy:pd:pd:a/b/56:1"]);
    let range = v2.config.prefix_groups[1].pd.unwrap();
    assert_eq!((range.pool_len, range.start_index, range.end_index), (60, 2, 2));
    assert_eq!(LanIPv6ServiceConfigV2::zone_requirement(), ZoneRequirement::LanOnly);
    assert_eq!(LanIPv6ServiceConfigV2::service_kind(), ServiceKind::LanIpv6);
}

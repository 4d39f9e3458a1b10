//! The registry of local host names.
use landscape::device::EnrolledDevice;
use landscape::hostname::config::HostnameRegistryConfig;
use landscape::hostname::registry::{
    EnrolledDeviceEvent, HostnameRegistry, IPv4AssignEvent, IPv4AssignInfo,
};
use landscape::net::{Ipv4Addr, MacAddr};

fn ip(last: u8) -> Ipv4Addr {
    Ipv4Addr::new(192, 168, 1, last)
}

fn device(hostname: Option<&str>, ipv4: Option<Ipv4Addr>) -> EnrolledDevice {
    EnrolledDevice {
        id: 1,
        iface_name: None,
        hostname: hostname.map(|h| h.to_string()),
        ipv4,
        ipv6: None,
    }
}

fn lease(hostname: &str, ip: Ipv4Addr) -> IPv4AssignInfo {
    IPv4AssignInfo {
        iface_name: "br0".to_string(),
        mac: MacAddr(2, 0, 0, 0, 0, 1),
        ip,
        hostname: Some(hostname.to_string()),
        device_id: None,
    }
}

fn registry(names: &[(&str, u8)]) -> HostnameRegistry {
    HostnameRegistry::new(
        HostnameRegistryConfig::default(),
        names.iter().map(|(name, last)| (name.to_string(), ip(*last))).collect(),
    )
}

#[test]
fn initial_devices_resolve() {
    let r = registry(&[("nas", 50), ("NAS", 51), ("b\u{fc}cher", 52), ("\u{200d}", 53)]);
    assert_eq!(r.resolve_a("nas.lan."), Some(ip(51)));
    assert_eq!(r.resolve_a("Nas.lan"), Some(ip(51)));
    assert_eq!(r.resolve_a("nas.LAN"), None);
    assert_eq!(r.resolve_a("xn--bcher-kva.lan"), Some(ip(52)));
    assert_eq!(r.resolve_a("B\u{fc}cher.lan"), Some(ip(52)));
    assert_eq!(r.resolve_a("nas"), None);
    assert_eq!(r.resolve_a("other.lan"), None);
}

#[test]
fn local_domain_needs_a_host() {
    let mut r = HostnameRegistry::new_for_test(HostnameRegistryConfig::default());
    assert!(r.is_local_domain("a.lan."));
    assert!(r.is_local_domain("a.b.lan"));
    assert!(!r.is_local_domain(".lan"));
    assert!(!r.is_local_domain("lan"));
    assert!(!r.is_local_domain("a.wlan.."));
    r.update_config(HostnameRegistryConfig { lan_suffix: String::new() });
    assert!(!r.is_local_domain("a.lan"));
    assert_eq!(r.resolve_a("a.lan"), None);
    r.update_config(HostnameRegistryConfig { lan_suffix: "home.net".to_string() });
    assert!(r.is_local_domain("a.home.net"));
}

#[test]
fn last_labels_of_the_local_network() {
    let r = registry(&[("b\u{fc}cher", 52)]);
    assert!(r.is_local_tld("lan"));
    assert!(r.is_local_tld("local"));
    assert!(!r.is_local_tld("com"));
    assert!(!r.is_local_tld(""));
    assert_eq!(r.resolve_a_by_hostname("B\u{fc}cher"), Some(ip(52)));
    assert_eq!(r.resolve_a_by_hostname("other"), None);
}

#[test]
fn enrolled_devices_win_over_leases() {
    let mut r = registry(&[("nas", 50)]);
    r.on_ipv4_event(&IPv4AssignEvent::Allocated(lease("nas", ip(9))));
    assert_eq!(r.resolve_a("nas.lan"), Some(ip(50)));
    r.on_ipv4_event(&IPv4AssignEvent::Expired(lease("nas", ip(9))));
    assert_eq!(r.resolve_a("nas.lan"), Some(ip(50)));
    r.on_ipv4_event(&IPv4AssignEvent::Allocated(lease("phone", ip(9))));
    r.on_ipv4_event(&IPv4AssignEvent::Allocated(lease("phone", ip(10))));
    assert_eq!(r.resolve_a("phone.lan"), Some(ip(10)));
    r.on_ipv4_event(&IPv4AssignEvent::Expired(lease("Phone", ip(10))));
    assert_eq!(r.resolve_a("phone.lan"), None);
}

#[test]
fn an_enrolled_name_outlasts_any_leases() {
    let mut r = registry(&[("NAS-1", 50), ("other", 51)]);
    for last in 1..20 {
        r.on_ipv4_event(&IPv4AssignEvent::Allocated(lease("nas-1", ip(last))));
        r.on_ipv4_event(&IPv4AssignEvent::Allocated(lease("other", ip(last))));
        if last % 3 == 0 {
            r.on_ipv4_event(&IPv4AssignEvent::Expired(lease("nas-1", ip(last))));
        }
        assert_eq!(r.resolve_a("nas-1.lan"), Some(ip(50)));
        assert_eq!(r.resolve_a("Nas-1.lan."), Some(ip(50)));
    }
}

#[test]
fn device_events_move_names() {
    let mut r = registry(&[("nas", 50)]);
    r.on_device_event(&EnrolledDeviceEvent::Updated {
        old: Some(device(Some("nas"), Some(ip(50)))),
        new: device(Some("box"), Some(ip(51))),
    });
    assert_eq!(r.resolve_a("nas.lan"), None);
    assert_eq!(r.resolve_a("box.lan"), Some(ip(51)));
    r.on_device_event(&EnrolledDeviceEvent::Updated {
        old: None,
        new: device(Some("no-address"), None),
    });
    assert_eq!(r.resolve_a("no-address.lan"), None);
    r.on_device_event(&EnrolledDeviceEvent::Deleted { old: device(Some("box"), None) });
    assert_eq!(r.resolve_a("box.lan"), None);
}

#[test]
fn names_in_ascii_form_are_registered_as_they_are() {
    let mut r = registry(&[]);
    r.register_lease(Some("x".to_string()), ip(1));
    assert_eq!(r.lookup(Some("x".to_string())), Some(ip(1)));
    r.register_enrolled(Some("x".to_string()), ip(2));
    r.release_lease(Some("x".to_string()));
    assert_eq!(r.lookup(Some("x".to_string())), Some(ip(2)));
    r.unregister(Some("x".to_string()));
    assert_eq!(r.lookup(Some("x".to_string())), None);
    r.register_enrolled(None, ip(3));
    assert_eq!(r.lookup(None), None);
}

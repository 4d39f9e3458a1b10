//! PPPoE uplinks.
use landscape::error::ServiceConfigError;
use landscape::ppp::config::{
    validate_ppp_iface_name, PPPDConfig, PPPDServiceConfig, PPPoEPlugin,
};
use landscape::ppp::relay::{relay_step, RelayAction, RelayEvent, RelayState};
use landscape::ppp::setup::{create_pppoe_handle, PppoeEgressTmpl, PppoeStep};
use landscape::zone::{ServiceKind, ZoneAwareConfig, ZoneRequirement};

fn reason(r: Result<(), ServiceConfigError>) -> String {
    match r {
        Ok(()) => String::new(),
        Err(ServiceConfigError::InvalidConfig { reason }) => reason,
    }
}

fn config() -> PPPDConfig {
    PPPDConfig {
        default_route: true,
        peer_id: "user".to_string(),
        password: "secret".to_string(),
        ac: None,
        plugin: PPPoEPlugin::default(),
    }
}

#[test]
fn interface_names_are_plain() {
    assert_eq!(reason(validate_ppp_iface_name("ppp-wan_0")), "");
    assert_eq!(reason(validate_ppp_iface_name(" ")), "PPPoE interface name must not be empty");
    assert_eq!(
        reason(validate_ppp_iface_name("ppp0 ")),
        "PPPoE interface name must not have leading or trailing whitespace"
    );
    assert_eq!(
        reason(validate_ppp_iface_name("abcdefghijklmnop")),
        "PPPoE interface name must be at most 15 characters"
    );
    assert_eq!(reason(validate_ppp_iface_name("abcdefghijklmno")), "");
    assert_eq!(
        reason(validate_ppp_iface_name("../ppp")),
        "PPPoE interface name may only contain ASCII letters, digits, '-' and '_'"
    );
    assert_eq!(
        reason(validate_ppp_iface_name("\u{3000}x")),
        "PPPoE interface name must not have leading or trailing whitespace"
    );
}

#[test]
fn credentials_fit_the_options_file() {
    assert_eq!(reason(config().validate()), "");
    let mut c = config();
    c.peer_id = String::new();
    assert_eq!(reason(c.validate()), "peer_id must not be empty");
    c.peer_id = "x".repeat(257);
    assert_eq!(reason(c.validate()), "peer_id exceeds 256 chars");
    c = config();
    c.password = "a\"b".to_string();
    assert_eq!(reason(c.validate()), "password contains forbidden characters");
    c = config();
    c.ac = Some("  ".to_string());
    assert_eq!(reason(c.validate()), "");
    c.ac = Some("ac\nname".to_string());
    assert_eq!(reason(c.validate()), "ac contains forbidden characters");
}

#[test]
fn options_file_holds_the_settings() {
    let mut c = config();
    c.ac = Some(" bras ".to_string());
    let text = c.write_config("eth0", "ppp0").unwrap();
    assert!(text.starts_with("\n# "));
    assert!(text.ends_with(
        "plugin rp-pppoe.so\nnic-eth0\npppoe-ac \"bras\"\n\nuser \"user\"\npassword \"secret\"\n\
         ifname ppp0\n"
    ));
    assert!(c.write_config("eth0", "ppp 0").is_err());
    assert_eq!(c.delete_config("ppp0").as_deref(), Some("/etc/ppp/peers/ppp0"));
    assert_eq!(c.delete_config("a/b"), None);
    assert_eq!(PPPoEPlugin::Pppoe.file_name(), "pppoe.so");
}

#[test]
fn sessions_run_on_the_attached_interface() {
    let service = PPPDServiceConfig {
        attach_iface_name: "eth0".to_string(),
        iface_name: "ppp0".to_string(),
        enable: true,
        pppd_config: config(),
    };
    assert_eq!(service.iface_name(), "eth0");
    assert_eq!(service.get_store_key(), "ppp0");
    assert_eq!(PPPDServiceConfig::zone_requirement(), ZoneRequirement::WanOnly);
    assert_eq!(PPPDServiceConfig::service_kind(), ServiceKind::PPPoE);
}

#[test]
fn relay_keeps_a_packet_until_it_is_sent() {
    let mut state = RelayState::Waiting;
    let mut step = |event: RelayEvent| {
        let (next, action) = relay_step(state, event);
        state = next;
        action
    };
    assert_eq!(step(RelayEvent::Received(60)), RelayAction::Deliver(60));
    assert_eq!(step(RelayEvent::Delivered), RelayAction::WaitForPacket);
    assert_eq!(step(RelayEvent::PacketToSend), RelayAction::TrySend);
    assert_eq!(step(RelayEvent::NotReady), RelayAction::TrySend);
    assert_eq!(step(RelayEvent::Sent), RelayAction::WaitForPacket);
    assert_eq!(step(RelayEvent::SessionClosed), RelayAction::Stop);
    assert_eq!(step(RelayEvent::PacketToSend), RelayAction::Stop);
}

#[test]
fn session_number_is_read_from_the_header() {
    let tmpl = PppoeEgressTmpl { session_id_high: 0x12, session_id_low: 0x34 };
    assert_eq!(tmpl.session_id(), 0x1234);
    assert_eq!(PppoeEgressTmpl::for_session(0x1234), tmpl);
    let (steps, handle) = create_pppoe_handle(4, tmpl, 1492);
    assert_eq!(handle.ifindex, 4);
    assert_eq!(steps.len(), 4);
    assert_eq!(steps[1], PppoeStep::InitXdp { ifindex: 4, session_id: 0x1234 });
    assert_eq!(steps[3], PppoeStep::SetFallback { ifindex: 4 });
}

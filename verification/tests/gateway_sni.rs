//! TLS connections that are passed through.
use landscape::gateway::balance::{fnv1a_hash, select_target, weighted_select};
use landscape::gateway::domains::match_wildcard;
use landscape::gateway::rules::{
    ClientIpHeaderPolicy, HttpUpstreamConfig, HttpUpstreamMatchRule, HttpUpstreamRuleConfig,
    HttpUpstreamTarget, LoadBalanceMethod, ProxyHeaderConflictMode,
};
use landscape::gateway::sni::{
    parse_sni_from_client_hello, select_target as select_sni_target, SniProxyRouter,
};

fn target(address: &str, port: u16, weight: u32) -> HttpUpstreamTarget {
    HttpUpstreamTarget {
        address: address.to_string(),
        port,
        weight,
        tls: true,
        skip_cert_verify: false,
    }
}

fn sni_rule(
    name: &str,
    domains: &[&str],
    targets: Vec<HttpUpstreamTarget>,
) -> HttpUpstreamRuleConfig {
    HttpUpstreamRuleConfig {
        id: 9,
        enable: true,
        name: name.to_string(),
        domains: domains.iter().map(|d| d.to_string()).collect(),
        match_rule: HttpUpstreamMatchRule::SniProxy,
        upstream: HttpUpstreamConfig {
            targets,
            load_balance: LoadBalanceMethod::RoundRobin,
            health_check: None,
            request_headers: vec![],
            header_conflict_mode: ProxyHeaderConflictMode::Replace,
            client_ip_headers: ClientIpHeaderPolicy::Omit,
        },
    }
}

fn build_client_hello_with_sni(host: &str) -> Vec<u8> {
    let host_bytes = host.as_bytes();
    let server_name_len = host_bytes.len() as u16;
    let sni_list_len = 1 + 2 + server_name_len;
    let sni_ext_len = 2 + sni_list_len;

    let mut hello = Vec::new();
    hello.extend_from_slice(&[0x03, 0x03]);
    hello.extend_from_slice(&[0u8; 32]);
    hello.push(0);
    hello.extend_from_slice(&2u16.to_be_bytes());
    hello.extend_from_slice(&[0x13, 0x01]);
    hello.push(1);
    hello.push(0);
    hello.extend_from_slice(&(sni_ext_len + 4).to_be_bytes());
    hello.extend_from_slice(&0u16.to_be_bytes());
    hello.extend_from_slice(&sni_ext_len.to_be_bytes());
    hello.extend_from_slice(&sni_list_len.to_be_bytes());
    hello.push(0);
    hello.extend_from_slice(&server_name_len.to_be_bytes());
    hello.extend_from_slice(host_bytes);

    let hello_len = hello.len() as u32;
    let mut handshake = Vec::new();
    handshake.push(0x01);
    handshake.push(((hello_len >> 16) & 0xff) as u8);
    handshake.push(((hello_len >> 8) & 0xff) as u8);
    handshake.push((hello_len & 0xff) as u8);
    handshake.extend_from_slice(&hello);

    let record_len = handshake.len() as u16;
    let mut record = Vec::new();
    record.push(0x16);
    record.extend_from_slice(&[0x03, 0x01]);
    record.extend_from_slice(&record_len.to_be_bytes());
    record.extend_from_slice(&handshake);
    record
}

#[test]
fn test_router_without_rules() {
    let mut router = SniProxyRouter::new(vec![]);
    assert!(!router.has_sni_proxy_rules());
    assert!(router.match_target("example.com").is_none());
}

#[test]
fn test_parse_sni_from_valid_client_hello() {
    let hello = build_client_hello_with_sni("App.Example.com");
    assert_eq!(parse_sni_from_client_hello(&hello).as_deref(), Some("app.example.com"));
}

#[test]
fn test_parse_sni_rejects_truncated_client_hello() {
    let mut hello = build_client_hello_with_sni("app.example.com");
    hello.truncate(hello.len() - 3);
    assert_eq!(parse_sni_from_client_hello(&hello), None);
}

#[test]
fn no_prefix_of_a_hello_has_a_name() {
    let hello = build_client_hello_with_sni("app.example.com");
    for n in 0..hello.len() {
        assert_eq!(parse_sni_from_client_hello(&hello[..n]), None);
    }
    let mut longer = hello.clone();
    longer.extend_from_slice(&[1, 2, 3]);
    assert_eq!(parse_sni_from_client_hello(&longer), parse_sni_from_client_hello(&hello));
}

#[test]
fn malformed_hellos_have_no_name() {
    let hello = build_client_hello_with_sni("app.example.com");
    let changed = |at: usize, byte: u8| {
        let mut h = hello.clone();
        h[at] = byte;
        parse_sni_from_client_hello(&h)
    };
    assert_eq!(changed(0, 0x17), None);
    assert_eq!(changed(5, 0x02), None);
    assert_eq!(changed(8, 0xff), None);
    assert_eq!(changed(43, 0xff), None);
    let name_at = hello.len() - "app.example.com".len();
    assert_eq!(changed(name_at, 0xff), None);
    assert_eq!(changed(name_at - 3, 1), None);
    assert_eq!(changed(name_at - 1, 200), None);
}

#[test]
fn test_exact_match_wins_over_wildcard() {
    let mut router = SniProxyRouter::new(vec![
        sni_rule("wildcard", &["*.example.com"], vec![target("10.0.0.2", 443, 1)]),
        sni_rule("exact", &["api.example.com"], vec![target("10.0.0.3", 8443, 1)]),
    ]);

    let matched = router.match_target("api.example.com").unwrap();
    assert_eq!(matched.rule_name, "exact");
    assert_eq!(matched.target.address, "10.0.0.3");
    assert_eq!(matched.target.port, 8443);
}

#[test]
fn test_wildcard_match_requires_a_subdomain() {
    let mut router = SniProxyRouter::new(vec![sni_rule(
        "wildcard",
        &["*.example.com"],
        vec![target("10.0.0.2", 443, 1)],
    )]);

    assert!(router.match_target("api.example.com").is_some());
    assert!(router.match_target("example.com").is_none());
}

#[test]
fn wildcards_ignore_case_and_need_a_dot() {
    assert!(match_wildcard("*.Example.COM", "a.b.example.com"));
    assert!(!match_wildcard("*.example.com", "notexample.com"));
    assert!(!match_wildcard("example.com", "a.example.com"));
    assert!(match_wildcard("*.example.com", ".example.com"));
}

#[test]
fn test_disabled_rules_are_ignored() {
    let mut rule = sni_rule("disabled", &["api.example.com"], vec![target("10.0.0.2", 443, 1)]);
    rule.enable = false;
    let mut router = SniProxyRouter::new(vec![rule]);

    assert!(!router.has_sni_proxy_rules());
    assert!(router.match_target("api.example.com").is_none());
}

#[test]
fn test_round_robin_selects_multiple_targets() {
    let mut router = SniProxyRouter::new(vec![sni_rule(
        "rr",
        &["api.example.com"],
        vec![target("10.0.0.2", 443, 1), target("10.0.0.3", 443, 1)],
    )]);

    let first = router.match_target("api.example.com").unwrap();
    let second = router.match_target("api.example.com").unwrap();

    assert_eq!(first.target.address, "10.0.0.2");
    assert_eq!(second.target.address, "10.0.0.3");
}

#[test]
fn test_rule_without_targets_is_not_selected() {
    let mut router =
        SniProxyRouter::new(vec![sni_rule("empty", &["api.example.com"], vec![])]);

    assert!(router.match_target("api.example.com").is_none());
}

#[test]
fn hashes_are_fnv1a() {
    assert_eq!(fnv1a_hash("", ""), 0xcbf29ce484222325);
    assert_eq!(fnv1a_hash("a", ""), 0xaf63dc4c8601ec8c);
    assert_eq!(fnv1a_hash("foo", "bar"), 0x85944171f73967e8);
}

#[test]
fn weights_share_out_the_points() {
    let targets = vec![target("a", 1, 2), target("b", 1, 0), target("c", 1, 3)];
    let picks: Vec<usize> = (0..6).map(|seed| weighted_select(&targets, seed)).collect();
    assert_eq!(picks, vec![0, 0, 2, 2, 2, 0]);
    assert_eq!(weighted_select(&targets, (1 << 32) + 2), 2);
    let weightless = vec![target("a", 1, 0), target("b", 1, 0)];
    assert_eq!(weighted_select(&weightless, 77), 0);
}

#[test]
fn one_key_always_leads_to_one_target() {
    let targets = vec![target("a", 1, 1), target("b", 1, 1), target("c", 1, 1)];
    let mut turn = 0usize;
    let first = select_target(&targets, LoadBalanceMethod::Consistent, &mut turn, "h", "/a");
    let other = select_target(&targets, LoadBalanceMethod::Consistent, &mut turn, "h", "/b");
    assert_eq!(first, other);
    assert_eq!(turn, 0);
    let random = select_target(&targets, LoadBalanceMethod::Random, &mut turn, "h", "/a");
    assert_eq!(random, fnv1a_hash("h", "/a") % 3);
    turn = usize::MAX;
    select_target(&targets, LoadBalanceMethod::RoundRobin, &mut turn, "h", "/a");
    assert_eq!(turn, 0);
}

#[test]
fn as_many_turns_as_targets_take_each_once() {
    let targets: Vec<_> = (0..5).map(|i| target("a", i, 1)).collect();
    let mut turn = 13usize;
    let picks: Vec<_> = (0..5)
        .map(|_| {
            select_sni_target(&targets, LoadBalanceMethod::RoundRobin, &mut turn, "h").unwrap()
        })
        .collect();
    assert_eq!(picks, vec![3, 4, 0, 1, 2]);
    assert_eq!(turn, 18);
    for method in [LoadBalanceMethod::Random, LoadBalanceMethod::Consistent] {
        let first = select_sni_target(&targets, method, &mut turn, "h");
        assert_eq!(first, select_sni_target(&targets, method, &mut turn, "h"));
        assert_eq!(select_sni_target(&targets[..1].to_vec(), method, &mut turn, "h"), Some(0));
        assert_eq!(select_sni_target(&vec![], method, &mut turn, "h"), None);
    }
    assert_eq!(turn, 18);
}

#[test]
fn a_last_target_without_weight_is_passed_over() {
    let targets = vec![target("a", 1, 2), target("b", 1, 1), target("c", 1, 0)];
    for seed in 0..9 {
        assert_ne!(weighted_select(&targets, seed), 2);
    }
}

#[test]
fn only_the_rule_of_a_name_must_fit() {
    let mut heavy =
        sni_rule("heavy", &["a.example"], vec![target("a", 1, u32::MAX), target("b", 1, 1)]);
    heavy.upstream.load_balance = LoadBalanceMethod::Consistent;
    let light = sni_rule("light", &["b.example"], vec![target("c", 1, 1)]);
    let mut router = SniProxyRouter::new(vec![heavy, light]);
    assert!(!router.can_match("a.example"));
    assert!(router.can_match("b.example"));
    assert!(router.can_match("c.example"));
    assert_eq!(router.match_target("b.example").unwrap().rule_name, "light");
}

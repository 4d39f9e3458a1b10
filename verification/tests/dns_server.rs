//! Requests about names, and the resolvers of all flows.
use landscape::dns::check::{CheckDnsReq, LandscapeDnsRecordType};
use landscape::dns::domain::PreprocessedDomain;
use landscape::dns::error::DnsError;
use landscape::dns::planner::{
    DnsRefreshPlan, DnsRefreshPlanner, FlowDnsAppliedState, HandlerRefreshPlan,
};
use landscape::dns::provider_profile::{DnsProviderConfig, DnsProviderProfile};
use landscape::dns::runtime::{
    CacheRuntimeConfig, DNSRedirectRuntimeRule, DNSRuntimeRule, DnsBindConfig,
    DnsRedirectAnswerMode, DnsUpstreamConfig, DnsUpstreamMode, DohRuntimeConfig,
    FlowDnsDesiredState, RuntimeDnsRule, RuntimeRedirectRule, RuntimeUpstreamTarget,
};
use landscape::dns::server::{FlowAction, FlowServerEntry, LandscapeDnsServer};
use landscape::dns::types::{FilterResult, RecordType};
use landscape::net::{IpAddr, Ipv4Addr};

fn desired_state() -> FlowDnsDesiredState {
    FlowDnsDesiredState {
        flow_id: 1,
        dns_rules: vec![RuntimeDnsRule {
            rule_id: 1234,
            order: 10,
            filter: FilterResult::default(),
            upstream: RuntimeUpstreamTarget {
                mode: DnsUpstreamMode::Plaintext,
                ips: vec![IpAddr::V4(Ipv4Addr::new(1, 1, 1, 1))],
                port: Some(53),
                enable_ip_validation: false,
            },
            bind_config: DnsBindConfig { bind_addr4: None, bind_addr6: None },
            mark: 0,
            sources: vec![],
        }],
        redirect_rules: vec![RuntimeRedirectRule {
            redirect_id: Some(5678),
            dynamic_source_id: None,
            order: 0,
            answer_mode: DnsRedirectAnswerMode::default(),
            match_rules: vec![],
            result_ips: vec![IpAddr::V4(Ipv4Addr::new(1, 1, 1, 1))],
            ttl_secs: 10,
        }],
        cache_runtime: CacheRuntimeConfig {
            cache_capacity: 16,
            cache_ttl: 30,
            negative_cache_ttl: 5,
        },
        doh_runtime: Some(DohRuntimeConfig {
            listen_port: 443,
            http_endpoint: "/dns-query".to_string(),
        }),
    }
}

fn request(flow_id: u32, domain: &str) -> CheckDnsReq {
    CheckDnsReq {
        flow_id,
        domain: domain.to_string(),
        record_type: LandscapeDnsRecordType::A,
        apply_filter: false,
    }
}

#[test]
fn check_dns_req_normalizes_trailing_dot_once() {
    let req = request(1, "example.com.");

    assert_eq!(req.get_domain().unwrap(), "example.com.");
}

#[test]
fn check_dns_req_adds_missing_trailing_dot() {
    let req = request(1, "example.com");

    assert_eq!(req.get_domain().unwrap(), "example.com.");
}

#[test]
fn international_names_are_asked_for_in_ascii() {
    assert_eq!(
        request(1, " B\u{fc}cher.Example.. ").get_domain().unwrap(),
        "xn--bcher-kva.example."
    );
    let bad = request(1, "\u{200d}").get_domain().unwrap_err();
    assert_eq!(bad, DnsError::Invalid { domain: "\u{200d}".to_string() });
    assert_eq!(bad.message(), "Invalid domain name '\u{200d}'");
    assert_eq!((bad.error_id(), bad.http_status_code()), ("dns_domain.invalid", 400));
    assert!(request(1, "x").domain_from_ascii(None).is_err());
    let given = Some("XN--A".to_string());
    assert_eq!(request(1, "x").domain_from_ascii(given).unwrap(), "xn--a.");
}

#[test]
fn every_spelling_of_a_name_is_one_name() {
    for spelled in
        ["example.com", "example.com.", "example.com..", " example.com. ", "EXAMPLE.COM", "\tExample.Com...\n"]
    {
        assert_eq!(request(1, spelled).get_domain().unwrap(), "example.com.");
    }
    assert_eq!(request(1, "A-1.x9-Z").get_domain().unwrap(), "a-1.x9-z.");
    assert_eq!(request(1, "9.-A..b").get_domain().unwrap(), "9.-a..b.");
    assert_eq!(request(1, " . ").get_domain().unwrap(), ".");
    assert!(request(1, "xn--a-.example").get_domain().is_err());
}

#[test]
fn dns_errors_are_worded() {
    assert_eq!(DnsError::FlowNotFound(7).message(), "DNS flow '7' not found");
    assert_eq!(DnsError::FlowNotFound(7).http_status_code(), 404);
    let e = DnsError::RefreshRedirected("a.".to_string());
    assert_eq!(
        e.message(),
        "DNS cache refresh is not available for redirected domain 'a.'"
    );
    assert_eq!((e.error_id(), e.http_status_code()), ("dns_check.refresh_redirected", 409));
    assert_eq!(DnsError::RefreshFailed("a.".to_string()).http_status_code(), 502);
}

#[test]
fn names_are_taken_apart() {
    let d = PreprocessedDomain::new("WWW.Example.COM.");
    assert_eq!((d.raw(), d.name(), d.tld()), ("WWW.Example.COM.", "www.example.com", "com"));
    assert_eq!(d.hostname_for_tld("com"), Some("www.example"));
    assert_eq!(d.hostname_for_tld("org"), None);
    assert_eq!((d.arpa_sld(), d.arpa_prefix()), (None, None));
    let a = PreprocessedDomain::new("1.in-addr.arpa");
    assert_eq!((a.arpa_sld(), a.arpa_prefix()), (Some("in-addr"), Some("1.in-addr")));
    let bare = PreprocessedDomain::new("arpa.");
    assert_eq!((bare.tld(), bare.arpa_sld(), bare.arpa_prefix()), ("arpa", None, None));
    let root = PreprocessedDomain::new(".");
    assert_eq!((root.name(), root.tld()), ("", ""));
    assert_eq!(PreprocessedDomain::new(".lan").hostname_for_tld("lan"), None);
}

#[test]
fn planner_detects_noop() {
    let desired = desired_state();
    let previous = FlowDnsAppliedState::from_desired_state(&desired);
    assert_eq!(DnsRefreshPlanner::build(Some(&previous), &desired), DnsRefreshPlan::Noop);
}

#[test]
fn planner_detects_redirect_only() {
    let mut desired = desired_state();
    let previous = FlowDnsAppliedState::from_desired_state(&desired);
    desired.redirect_rules[0].ttl_secs = 20;
    assert_eq!(
        DnsRefreshPlanner::build(Some(&previous), &desired),
        DnsRefreshPlan::ApplyHandler(HandlerRefreshPlan::ReplaceRedirects)
    );
}

#[test]
fn planner_detects_negative_ttl_only_change_without_cache_rebuild() {
    let mut desired = desired_state();
    let previous = FlowDnsAppliedState::from_desired_state(&desired);
    desired.cache_runtime.negative_cache_ttl = 99;
    assert_eq!(
        DnsRefreshPlanner::build(Some(&previous), &desired),
        DnsRefreshPlan::ApplyHandler(HandlerRefreshPlan::ApplyCacheRuntime {
            rebuild_cache: false,
        })
    );
}

#[test]
fn planner_ignores_doh_runtime_changes() {
    let mut desired = desired_state();
    let previous = FlowDnsAppliedState::from_desired_state(&desired);
    desired.doh_runtime.as_mut().unwrap().listen_port = 8443;

    assert_eq!(DnsRefreshPlanner::build(Some(&previous), &desired), DnsRefreshPlan::Noop);
}

#[test]
fn planner_keeps_handler_plan_when_doh_runtime_also_changes() {
    let previous_desired = desired_state();
    let previous = FlowDnsAppliedState::from_desired_state(&previous_desired);

    let mut desired = desired_state();
    desired.redirect_rules[0].ttl_secs = 20;
    desired.doh_runtime.as_mut().unwrap().listen_port = 8443;

    assert_eq!(
        DnsRefreshPlanner::build(Some(&previous), &desired),
        DnsRefreshPlan::ApplyHandler(HandlerRefreshPlan::ReplaceRedirects)
    );
}

#[test]
fn planner_starts_with_everything_and_remembers_what_was_taken_over() {
    let mut desired = desired_state();
    let previous = FlowDnsAppliedState::from_desired_state(&desired);
    let first = DnsRefreshPlanner::build(None, &desired);
    assert_eq!(
        first,
        DnsRefreshPlan::RestartListener {
            handler_plan: Some(HandlerRefreshPlan::ReplaceRules { include_redirects: true }),
        }
    );
    assert!(DnsRefreshPlanner::applied_after_failure(None, &desired, &first).is_none());
    desired.cache_runtime.cache_ttl = 31;
    desired.dns_rules[0].mark = 9;
    desired.redirect_rules.clear();
    let after = |plan: HandlerRefreshPlan| {
        let plan = DnsRefreshPlan::RestartListener { handler_plan: Some(plan) };
        DnsRefreshPlanner::applied_after_failure(Some(&previous), &desired, &plan).unwrap()
    };
    let rules = after(HandlerRefreshPlan::ReplaceRules { include_redirects: false });
    assert_eq!((rules.dns_rules[0].mark, rules.redirect_rules.len()), (9, 1));
    assert_eq!(rules.cache_runtime.cache_ttl, 31);
    let cache = after(HandlerRefreshPlan::ApplyCacheRuntime { rebuild_cache: true });
    assert_eq!((cache.dns_rules[0].mark, cache.cache_runtime.cache_ttl), (0, 31));
    let none = DnsRefreshPlan::RestartListener { handler_plan: None };
    assert_eq!(
        DnsRefreshPlanner::applied_after_failure(Some(&previous), &desired, &none).unwrap(),
        previous
    );
}

#[test]
fn flow_server_entry_allows_empty_runtime_while_refreshing() {
    let entry = FlowServerEntry::new();

    assert!(!entry.running);
    assert!(entry.applied_state.is_none());
}

#[test]
fn flows_are_started_changed_and_left_alone() {
    let settings = desired_state().cache_runtime;
    let mut server = LandscapeDnsServer::new(settings, desired_state().doh_runtime);
    let mut desired = desired_state();
    assert_eq!(server.plan_refresh(&desired), FlowAction::Start);
    server.finish_refresh(&desired, false);
    assert_eq!(server.running_flow(1).unwrap_err(), DnsError::FlowNotFound(1));
    assert_eq!(server.plan_refresh(&desired), FlowAction::Start);
    server.finish_refresh(&desired, true);
    assert!(server.running_flow(1).is_ok());
    assert_eq!(server.plan_refresh(&desired), FlowAction::Nothing);
    desired.dns_rules.clear();
    assert_eq!(
        server.plan_refresh(&desired),
        FlowAction::Change(HandlerRefreshPlan::ReplaceRules { include_redirects: false })
    );
    server.finish_refresh(&desired, false);
    assert_eq!(server.plan_refresh(&desired), FlowAction::Nothing);
    assert!(server.running_flow(2).is_err());
}

#[test]
fn requests_need_a_name_and_a_running_flow() {
    let settings = desired_state().cache_runtime;
    let mut server = LandscapeDnsServer::new(settings, None);
    server.finish_refresh(&desired_state(), true);
    let found = server.refresh_domain_cache(&request(1, "Example.com")).unwrap();
    assert_eq!(found, ("example.com.".to_string(), RecordType::A));
    assert_eq!(
        server.invalidate_domain_cache(&request(2, "a")).unwrap_err(),
        DnsError::FlowNotFound(2)
    );
    assert!(matches!(
        server.refresh_domain_cache(&request(2, "\u{200d}")).unwrap_err(),
        DnsError::Invalid { .. }
    ));
    assert_eq!(server.check_domain(&request(2, "a")), Ok(None));
    assert!(server.check_domain(&request(1, "a")).unwrap().is_some());
    let https = server.lookup_of(Ok("a.".to_string()), LandscapeDnsRecordType::HTTPS, 1);
    assert_eq!(https, Ok(("a.".to_string(), RecordType::HTTPS)));
}

#[test]
fn live_settings_can_be_changed() {
    let settings = desired_state().cache_runtime;
    let mut server = LandscapeDnsServer::new(settings, desired_state().doh_runtime);
    let wider = CacheRuntimeConfig { cache_capacity: 99, ..settings };
    server.update_runtime_config(wider);
    assert_eq!(server.current_live_runtime_config(), (wider, desired_state().doh_runtime));
}

#[test]
fn rules_go_to_their_run_time_form_and_back() {
    let configured = DNSRuntimeRule {
        id: 9,
        name: "n".to_string(),
        index: 4,
        enable: false,
        filter: FilterResult::OnlyIPv4,
        resolve_mode: DnsUpstreamConfig {
            id: 2,
            remark: "r".to_string(),
            mode: DnsUpstreamMode::Tls { domain: "dns.example".to_string() },
            ips: vec![IpAddr::V4(Ipv4Addr { bits: 1 })],
            port: None,
            enable_ip_validation: None,
        },
        bind_config: DnsBindConfig { bind_addr4: None, bind_addr6: None },
        mark: 3,
        source: vec![],
        flow_id: 5,
    };
    let rule = RuntimeDnsRule::from(configured);
    assert_eq!((rule.rule_id, rule.order, rule.mark), (9, 4, 3));
    assert!(!rule.upstream.enable_ip_validation);
    let back = DNSRuntimeRule::from(rule);
    assert_eq!((back.id, back.index, back.enable, back.flow_id), (9, 4, true, 0));
    assert_eq!(back.resolve_mode.enable_ip_validation, Some(false));

    let redirect = DNSRedirectRuntimeRule {
        redirect_id: None,
        dynamic_redirect_source: Some("s".to_string()),
        answer_mode: DnsRedirectAnswerMode::AllLocalIps,
        match_rules: vec![],
        result_info: vec![IpAddr::V4(Ipv4Addr { bits: 1 })],
        ttl_secs: 8,
    };
    let back = DNSRedirectRuntimeRule::from(RuntimeRedirectRule::from(redirect));
    assert_eq!(back.dynamic_redirect_source.as_deref(), Some("s"));
    assert_eq!((back.ttl_secs, back.result_info.len()), (8, 1));
}

#[test]
fn provider_profiles_are_checked() {
    let profile = |name: &str, ttl: Option<u32>| DnsProviderProfile {
        id: 1,
        name: name.to_string(),
        provider_config: DnsProviderConfig { provider: "p".to_string(), settings: String::new() },
        remark: None,
        ddns_default_ttl: ttl,
    };
    assert!(profile("a", None).validate().is_ok());
    assert_eq!(profile("a", Some(60)).default_record_ttl(), Some(60));
    assert_eq!(
        profile(" \t", Some(0)).validate().unwrap_err(),
        "DNS provider profile name must not be empty"
    );
    assert_eq!(
        profile("a", Some(0)).validate().unwrap_err(),
        "ddns_default_ttl must be greater than 0 when provided"
    );
}

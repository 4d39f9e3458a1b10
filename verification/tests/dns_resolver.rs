//! Answering queries: redirects, the router's own names, the cache and
//! upstream servers.
use std::sync::{Arc, Mutex};

use landscape::dns::cache::{
    build_resolves, find_cache_rule, find_rule, item_under_rule, lookup_cache, migrate_item,
    CacheDNSItem, ResolutionRule,
};
use landscape::dns::check::CheckChainDnsResult;
use landscape::dns::check_domain::{
    check_arpa, check_cache, check_domain, check_upstream, refresh_cache_entry, refresh_upstream,
    CacheChange, CheckStep, RefreshStep,
};
use landscape::dns::domain::PreprocessedDomain;
use landscape::dns::error::DnsError;
use landscape::dns::filter::{filter_result, is_type_filtered, outcome_to_response_code};
use landscape::dns::handler::{
    answer_arpa, answer_reverse_query, handle_request, migrate_cache, resolve_arpa_name,
    CacheEntry, DnsRequestHandler, QueryStep,
};
use landscape::dns::local::{
    build_ddr_records, lookup_redirects, lookup_with_addrs, RedirectAnswer, RedirectCandidate,
};
use landscape::dns::planner::{DnsRefreshPlan, HandlerRefreshPlan};
use landscape::dns::request::{preflight, response_meta, serve_failed};
use landscape::dns::server::LandscapeDnsServer;
use landscape::dns::resolve::{
    resolve_forward, resolve_from_cache_or_upstream, settle_upstream, CacheOrUpstream,
    UpstreamReply,
};
use landscape::dns::runtime::{
    CacheRuntimeConfig, DNSRedirectRuntimeRule, DnsBindConfig, DnsRedirectAnswerMode,
    DnsUpstreamMode, DohRuntimeConfig, DomainConfig, DomainMatchType, FlowDnsDesiredState,
    RuntimeDnsRule, RuntimeRedirectRule, RuntimeUpstreamTarget,
};
use landscape::dns::types::{
    DnsOutcome, DnsRuntimeMarkInfo, FilterResult, RData, Record, RecordType, ResponseCode,
    SvcParam, Svcb,
};
use landscape::net::{IpAddr, Ipv4Addr, Ipv6Addr};

const SECOND: u128 = 1_000_000_000;

fn v4(a: u8, b: u8, c: u8, d: u8) -> IpAddr {
    IpAddr::V4(Ipv4Addr::new(a, b, c, d))
}

fn localhost_v6() -> IpAddr {
    IpAddr::V6(Ipv6Addr { bits: 1 })
}

fn sample_a_record(name: &str, ttl: u32, addr: Ipv4Addr) -> Record {
    Record { name: name.to_string(), ttl, data: RData::A(addr) }
}

fn no_mark() -> DnsRuntimeMarkInfo {
    DnsRuntimeMarkInfo { mark: 0, priority: 0 }
}

fn rule(id: u128, order: u32, filter: FilterResult, matches: bool) -> ResolutionRule {
    ResolutionRule {
        config_id: id,
        order,
        filter,
        mark: DnsRuntimeMarkInfo { mark: order, priority: 1 },
        matches,
    }
}

fn test_cache_runtime_config(negative_cache_ttl: u32) -> CacheRuntimeConfig {
    CacheRuntimeConfig { cache_capacity: 16, cache_ttl: 60, negative_cache_ttl }
}

fn full(value: &str) -> DomainConfig {
    DomainConfig { match_type: DomainMatchType::Full, value: value.to_string() }
}

fn runtime_rule(id: u128, order: u32) -> RuntimeDnsRule {
    RuntimeDnsRule {
        rule_id: id,
        order,
        filter: FilterResult::Unfilter,
        upstream: RuntimeUpstreamTarget {
            mode: DnsUpstreamMode::Plaintext,
            ips: vec![v4(1, 1, 1, 1)],
            port: Some(53),
            enable_ip_validation: false,
        },
        bind_config: DnsBindConfig { bind_addr4: None, bind_addr6: None },
        mark: 0,
        sources: vec![],
    }
}

fn redirect_rule(domain: &str, ip: IpAddr, ttl_secs: u32) -> RuntimeRedirectRule {
    RuntimeRedirectRule::from(DNSRedirectRuntimeRule {
        redirect_id: Some(0),
        dynamic_redirect_source: None,
        answer_mode: DnsRedirectAnswerMode::StaticIps,
        match_rules: vec![full(domain)],
        result_info: vec![ip],
        ttl_secs,
    })
}

fn make_test_handler(rules: Vec<RuntimeDnsRule>) -> DnsRequestHandler {
    let mut desired = FlowDnsDesiredState::default();
    desired.dns_rules = rules;
    DnsRequestHandler::new(desired, 1, None)
}

/// The redirects that are for a name, as they bear on a query.
fn candidates(
    rules: &[RuntimeRedirectRule],
    name: &str,
    query_type: RecordType,
    local: &[IpAddr],
) -> Vec<RedirectCandidate> {
    let bare = name.trim_end_matches('.');
    rules
        .iter()
        .map(|r| {
            let uses_local_answer_provider = r.answer_mode == DnsRedirectAnswerMode::AllLocalIps;
            let ips = if uses_local_answer_provider { local } else { &r.result_ips[..] };
            RedirectCandidate {
                matches: r.match_rules.iter().any(|m| m.value == bare),
                uses_local_answer_provider,
                is_block: false,
                redirect_id: r.redirect_id,
                dynamic_redirect_source: r.dynamic_source_id.clone(),
                records: lookup_with_addrs(name, r.ttl_secs, query_type, ips),
            }
        })
        .collect()
}

/// Starts on an ordinary question that nothing is known about.
fn ask(name: &str, query_type: RecordType) -> QueryStep {
    handle_request(1, true, true, name, query_type, None, false, None, None)
}

fn responded(step: QueryStep) -> (Vec<Record>, DnsOutcome) {
    match step {
        QueryStep::Respond(records, outcome) => (records, outcome),
        other => panic!("expected a response, got {other:?}"),
    }
}

fn reverse_addr(step: QueryStep) -> IpAddr {
    match step {
        QueryStep::LookUpAddress(addr) => addr,
        other => panic!("expected a reverse query, got {other:?}"),
    }
}

fn ptr_text(records: &[Record]) -> &str {
    match &records[0].data {
        RData::PTR(name) => name,
        other => panic!("expected PTR record, got {other:?}"),
    }
}

fn arpa_name_from_ipv6(addr: Ipv6Addr) -> String {
    let nibbles: Vec<String> =
        (0..32).map(|i| format!("{:x}", (addr.bits >> (4 * i)) & 0x0f)).collect();
    format!("{}.ip6.arpa.", nibbles.join("."))
}

#[test]
fn test_serve_failed_flags() {
    let res_info = serve_failed(0x1234);

    assert_eq!(res_info.id, 0x1234);
    assert_eq!(res_info.response_code, ResponseCode::ServFail);
    assert!(res_info.recursion_available, "RA flag must be true");
    assert!(res_info.authoritative, "AA flag must be true");
}

#[test]
fn outcomes_have_their_codes() {
    assert_eq!(response_meta(7, DnsOutcome::NxDomain).response_code, ResponseCode::NXDomain);
    assert_eq!(response_meta(7, DnsOutcome::Error).response_code, ResponseCode::ServFail);
    for outcome in [
        DnsOutcome::Normal,
        DnsOutcome::Local,
        DnsOutcome::Block,
        DnsOutcome::Hit,
        DnsOutcome::Filter,
    ] {
        assert_eq!(outcome_to_response_code(outcome), ResponseCode::NoError);
    }
}

#[test]
fn test_is_type_filtered() {
    assert!(is_type_filtered(RecordType::A, &FilterResult::OnlyIPv6));
    assert!(!is_type_filtered(RecordType::AAAA, &FilterResult::OnlyIPv6));
    assert!(is_type_filtered(RecordType::AAAA, &FilterResult::OnlyIPv4));
    assert!(!is_type_filtered(RecordType::A, &FilterResult::OnlyIPv4));
    assert!(!is_type_filtered(RecordType::A, &FilterResult::Unfilter));
}

#[test]
fn test_filter_result() {
    let records = vec![
        sample_a_record("test.com.", 60, Ipv4Addr::new(1, 1, 1, 1)),
        Record {
            name: "test.com.".to_string(),
            ttl: 60,
            data: RData::AAAA(Ipv6Addr::new(0, 0, 0, 0, 0, 0, 0, 1)),
        },
    ];

    let filtered_v4 = filter_result(records.clone(), &FilterResult::OnlyIPv4);
    assert_eq!(filtered_v4.len(), 1);
    assert_eq!(filtered_v4[0].record_type(), RecordType::A);

    let filtered_v6 = filter_result(records.clone(), &FilterResult::OnlyIPv6);
    assert_eq!(filtered_v6.len(), 1);
    assert_eq!(filtered_v6[0].record_type(), RecordType::AAAA);

    let filtered_none = filter_result(records.clone(), &FilterResult::Unfilter);
    assert_eq!(filtered_none.len(), 2);
}

#[test]
fn hints_of_the_other_family_are_stripped() {
    let https = Record {
        name: "test.com.".to_string(),
        ttl: 60,
        data: RData::HTTPS(Svcb {
            priority: 1,
            target: ".".to_string(),
            params: vec![
                SvcParam::Alpn("h2".to_string()),
                SvcParam::Ipv4Hint(vec![Ipv4Addr { bits: 1 }]),
                SvcParam::Ipv6Hint(vec![Ipv6Addr { bits: 1 }]),
            ],
        }),
    };
    let keys = |filter: FilterResult| -> Vec<u16> {
        let once = filter_result(vec![https.clone()], &filter);
        let twice = filter_result(once, &filter);
        match &twice[0].data {
            RData::HTTPS(s) => s.params.iter().map(SvcParam::key).collect(),
            _ => vec![],
        }
    };
    assert_eq!(keys(FilterResult::OnlyIPv4), vec![1, 4]);
    assert_eq!(keys(FilterResult::OnlyIPv6), vec![1, 6]);
    assert_eq!(keys(FilterResult::Unfilter), vec![1, 4, 6]);
}

#[test]
fn build_ddr_records_encodes_svc_params_in_increasing_order() {
    let records = build_ddr_records(
        &["api.example.com".to_string()],
        443,
        &b"/dns-query{?dns}".to_vec(),
        &[v4(192, 168, 5, 1)],
        &[localhost_v6()],
    );

    assert_eq!(records.len(), 1);
    assert_eq!(records[0].name, "_dns.resolver.arpa.");
    assert_eq!(records[0].ttl, 60);
    let svcb = match &records[0].data {
        RData::SVCB(svcb) => svcb.clone(),
        _ => panic!("expected SVCB record"),
    };
    assert_eq!((svcb.priority, svcb.target.as_str()), (1, "api.example.com."));

    let keys = svcb.params.iter().map(SvcParam::key).collect::<Vec<_>>();
    assert_eq!(keys, vec![1, 3, 4, 6, 7]);
    assert!(svcb.params.iter().any(|p| {
        matches!(p, SvcParam::Other(7, value) if value.as_slice() == b"/dns-query{?dns}")
    }));
}

#[test]
fn announcements_leave_out_what_is_no_name() {
    let domains = vec!["a..b".to_string(), "ok.example".to_string()];
    let records = build_ddr_records(&domains, 443, &vec![1], &[localhost_v6()], &[]);
    assert_eq!(records.len(), 1);
    let doh = DohRuntimeConfig { listen_port: 8443, http_endpoint: "/dns-query".to_string() };
    let desired = FlowDnsDesiredState::default();
    let handler = DnsRequestHandler::new(desired, 1, Some(doh));
    let path = b"/q".to_vec();
    let some = handler.build_ddr_records(Some(&domains), Some(&path), &[], &[]);
    assert_eq!(some.len(), 1);
    match &some[0].data {
        RData::SVCB(s) => assert!(matches!(s.params[1], SvcParam::Port(8443))),
        other => panic!("expected SVCB record, got {other:?}"),
    }
    assert!(handler.build_ddr_records(None, Some(&path), &[], &[]).is_empty());
    assert!(handler.build_ddr_records(Some(&domains), None, &[], &[]).is_empty());
    let plain = make_test_handler(vec![]);
    assert!(plain.build_ddr_records(Some(&domains), Some(&path), &[], &[]).is_empty());
}

#[test]
fn resolve_arpa_dispatches_by_second_level_label() {
    // resolver.arpa. -> resolver branch
    let (records, outcome) = responded(ask("resolver.arpa.", RecordType::A));
    assert!(records.is_empty());
    assert_eq!(outcome, DnsOutcome::Local);
    assert!(matches!(ask("_dns.resolver.arpa.", RecordType::SVCB), QueryStep::Announce));

    // home.arpa. -> home branch
    let (records, outcome) = responded(ask("home.arpa.", RecordType::A));
    assert!(records.is_empty());
    assert_eq!(outcome, DnsOutcome::NxDomain);

    // in-addr.arpa. -> reverse branch
    let addr = reverse_addr(ask("1.0.0.10.in-addr.arpa.", RecordType::PTR));
    assert_eq!(addr, v4(10, 0, 0, 1));
    let (records, _outcome) =
        responded(answer_reverse_query("1.0.0.10.in-addr.arpa.", addr, true, None));
    assert!(records.is_empty());

    // ip6.arpa. -> reverse branch
    let name = "0.0.0.0.0.0.0.0.0.0.0.0.0.0.0.0.0.0.0.0.0.0.0.0.0.0.0.0.0.0.0.0.ip6.arpa.";
    let addr = reverse_addr(ask(name, RecordType::PTR));
    assert_eq!(addr, IpAddr::V6(Ipv6Addr { bits: 0 }));
    assert!(matches!(
        answer_reverse_query(name, addr, false, None),
        QueryStep::CacheOrUpstream
    ));

    // evilresolver.arpa. is not resolver -> NXDOMAIN
    let (records, outcome) = responded(ask("evilresolver.arpa.", RecordType::A));
    assert!(records.is_empty());
    assert_eq!(outcome, DnsOutcome::NxDomain);
}

#[test]
fn resolve_forward_blocked_tld_returns_nxdomain() {
    for domain in &["somewhere.onion.", "foo.invalid.", "bar.test."] {
        let pd = PreprocessedDomain::new(domain);
        let (records, outcome) =
            resolve_forward(&pd, domain, RecordType::A, None, false, None, None).unwrap();
        assert!(records.is_empty(), "records for {} should be empty", domain);
        assert_eq!(outcome, DnsOutcome::NxDomain, "outcome for {} should be NxDomain", domain);
    }
}

#[test]
fn resolve_arpa_home_returns_nxdomain_for_unknown_hostname() {
    let (records, outcome) = responded(ask("nonexistent.home.arpa.", RecordType::A));
    assert!(records.is_empty());
    assert_eq!(outcome, DnsOutcome::NxDomain);
}

#[test]
fn hosts_below_home_arpa_have_their_address() {
    let ip = Ipv4Addr::new(192, 168, 1, 50);
    let step = handle_request(
        1, true, true, "NAS.home.arpa.", RecordType::A, None, false, Some(ip), None,
    );
    let (records, outcome) = responded(step);
    assert_eq!(outcome, DnsOutcome::Local);
    assert!(matches!(records[0].data, RData::A(a) if a == ip));
    assert_eq!(records[0].ttl, 60);
}

#[test]
fn resolve_arpa_reverse_returns_registered_lan_hostname() {
    let name = "50.1.168.192.in-addr.arpa.";
    let addr = reverse_addr(ask(name, RecordType::PTR));
    assert_eq!(addr, v4(192, 168, 1, 50));
    let (records, outcome) = responded(answer_reverse_query(name, addr, true, Some("nas.lan.")));
    assert_eq!(outcome, DnsOutcome::Local);
    assert_eq!(records.len(), 1);
    assert_eq!(ptr_text(&records), "nas.lan.");
}

#[test]
fn resolve_arpa_reverse_ipv6_returns_registered_lan_hostname() {
    let ipv6 = Ipv6Addr::new(0xfd01, 0, 0, 0, 0, 0, 0, 99);
    let name = arpa_name_from_ipv6(ipv6);
    let addr = reverse_addr(ask(&name, RecordType::PTR));
    assert_eq!(addr, IpAddr::V6(ipv6));
    let (records, outcome) = responded(answer_reverse_query(&name, addr, true, Some("srv.lan.")));
    assert_eq!(outcome, DnsOutcome::Local);
    assert_eq!(records.len(), 1);
    assert_eq!(ptr_text(&records), "srv.lan.");
}

#[test]
fn resolve_forward_local_domain_aaaa_returns_registered_ipv6() {
    let ipv6 = Ipv6Addr::new(0xfd00, 0, 0, 0, 0, 0, 0, 2);
    let ipv4 = Some(Ipv4Addr::new(192, 168, 1, 100));
    let pd = PreprocessedDomain::new("dev.lan.");
    let (records, outcome) =
        resolve_forward(&pd, "dev.lan.", RecordType::AAAA, None, true, ipv4, Some(ipv6)).unwrap();
    assert_eq!(outcome, DnsOutcome::Local);
    assert_eq!(records.len(), 1);
    match &records[0].data {
        RData::AAAA(aaaa) => assert_eq!(*aaaa, ipv6),
        other => panic!("expected AAAA record, got {:?}", other),
    }
}

#[test]
fn resolve_forward_local_domain_aaaa_returns_nxdomain_when_no_ipv6() {
    let ipv4 = Some(Ipv4Addr::new(192, 168, 1, 100));
    let pd = PreprocessedDomain::new("dev.lan.");
    let (records, outcome) =
        resolve_forward(&pd, "dev.lan.", RecordType::AAAA, None, true, ipv4, None).unwrap();
    assert_eq!(outcome, DnsOutcome::NxDomain);
    assert!(records.is_empty());
}

#[test]
fn hosts_below_local_exist_without_records() {
    let pd = PreprocessedDomain::new("printer.local.");
    let answer = |query_type: RecordType| {
        resolve_forward(&pd, "printer.local.", query_type, None, true, None, None).unwrap()
    };
    assert_eq!(answer(RecordType::A).1, DnsOutcome::Local);
    assert_eq!(answer(RecordType::HTTPS).1, DnsOutcome::Local);
    let bare = PreprocessedDomain::new("local.");
    let (_, outcome) =
        resolve_forward(&bare, "local.", RecordType::A, None, true, None, None).unwrap();
    assert_eq!(outcome, DnsOutcome::NxDomain);
}

#[test]
fn resolve_arpa_loopback_returns_localhost_ptr() {
    let name = "1.0.0.127.in-addr.arpa.";
    let addr = reverse_addr(ask(name, RecordType::PTR));
    let (records, outcome) = responded(answer_reverse_query(name, addr, true, None));
    assert_eq!(outcome, DnsOutcome::Local);
    assert_eq!(records.len(), 1);
    assert_eq!(ptr_text(&records), "localhost.");
}

#[test]
fn registered_names_that_are_none_are_an_error() {
    let name = "1.0.0.10.in-addr.arpa.";
    let (records, outcome) =
        responded(answer_reverse_query(name, v4(10, 0, 0, 1), true, Some("a..b.")));
    assert!(records.is_empty());
    assert_eq!(outcome, DnsOutcome::Error);
}

#[test]
fn resolve_arpa_ipv4only_returns_nodata() {
    let (records, outcome) = responded(ask("ipv4only.arpa.", RecordType::A));
    assert!(records.is_empty());
    assert_eq!(outcome, DnsOutcome::Local);
}

#[test]
fn resolve_arpa_unknown_returns_nxdomain() {
    let (records, outcome) = responded(ask("foo.bar.arpa.", RecordType::A));
    assert!(records.is_empty());
    assert_eq!(outcome, DnsOutcome::NxDomain);
}

#[test]
fn reverse_names_that_stand_for_nothing_do_not_exist() {
    let domain = PreprocessedDomain::new("x.in-addr.arpa.");
    let step = answer_arpa(&domain, "x.in-addr.arpa.", RecordType::PTR, None, None, None);
    assert_eq!(responded(step).1, DnsOutcome::NxDomain);
    assert_eq!(responded(ask("999.in-addr.arpa.", RecordType::PTR)).1, DnsOutcome::NxDomain);
    let domain = PreprocessedDomain::new("1.0.0.10.in-addr.arpa.");
    let step = resolve_arpa_name(&domain, domain.raw(), RecordType::ANY, None, None);
    assert_eq!(reverse_addr(step), v4(10, 0, 0, 1));
}

#[test]
fn requests_are_looked_over_first() {
    let code = |n: usize, query: bool, internet: bool, t: RecordType| {
        preflight(n, query, internet, t)
    };
    assert_eq!(code(1, true, true, RecordType::A), None);
    assert_eq!(code(0, false, true, RecordType::A), Some(ResponseCode::FormErr));
    assert_eq!(code(2, true, true, RecordType::A), Some(ResponseCode::FormErr));
    assert_eq!(code(1, false, false, RecordType::A), Some(ResponseCode::NotImp));
    assert_eq!(code(1, true, false, RecordType::ANY), Some(ResponseCode::Refused));
    assert_eq!(code(1, true, true, RecordType::AXFR), Some(ResponseCode::Refused));
    assert_eq!(code(1, true, true, RecordType::OPT), Some(ResponseCode::FormErr));
    assert_eq!(code(1, true, true, RecordType::TSIG), Some(ResponseCode::NotImp));
    assert_eq!(code(1, true, true, RecordType::Other(249)), Some(ResponseCode::NotImp));
    assert_eq!(code(1, true, true, RecordType::Other(250)), None);
    let step = handle_request(1, false, true, "a.", RecordType::A, None, false, None, None);
    assert!(matches!(step, QueryStep::Refuse(ResponseCode::NotImp)));
    assert!(matches!(ask("a..b.", RecordType::A), QueryStep::Refuse(ResponseCode::FormErr)));
    assert!(matches!(ask("example.com.", RecordType::A), QueryStep::CacheOrUpstream));
}

#[test]
fn check_domain_applies_filter_when_requested() {
    let domain = PreprocessedDomain::new("example.com.");
    let found = find_rule(&[rule(3, 0, FilterResult::OnlyIPv6, true)]);
    let step = check_domain(
        &domain, "example.com.", RecordType::A, true, None, false, None, None, found,
    );
    let result = match step {
        CheckStep::LookInCache(result) => check_cache(result, RecordType::A, true, None),
        other => panic!("the upstream server must not be asked: {other:?}"),
    };

    assert_eq!(result.rule_filter, Some(FilterResult::OnlyIPv6));
    assert!(result.query_filtered);
    assert!(result.records.as_ref().is_some_and(Vec::is_empty));
    assert!(result.cache_records.is_none());
}

fn cached_check(name: &str, apply_filter: bool) -> CheckChainDnsResult {
    let handler = make_test_handler(vec![]);
    let item = handler
        .insert(
            &test_cache_runtime_config(5),
            vec![sample_a_record(name, 60, Ipv4Addr::new(1, 1, 1, 1))],
            ResponseCode::NoError,
            no_mark(),
            FilterResult::OnlyIPv6,
            None,
            None,
            0,
        )
        .unwrap();
    let domain = PreprocessedDomain::new(name);
    let step =
        check_domain(&domain, name, RecordType::A, apply_filter, None, false, None, None, None);
    match step {
        CheckStep::LookInCache(result) => {
            check_cache(result, RecordType::A, apply_filter, lookup_cache(&item, SECOND))
        }
        other => panic!("expected a look into the cache, got {other:?}"),
    }
}

#[test]
fn check_domain_filters_cached_records_when_requested() {
    let result = cached_check("cached-filter.example.", true);

    assert_eq!(result.rule_filter, Some(FilterResult::OnlyIPv6));
    assert!(result.query_filtered);
    assert!(result.cache_records.as_ref().is_some_and(Vec::is_empty));
}

#[test]
fn check_domain_keeps_full_cached_records_without_filter_flag() {
    let result = cached_check("cached-full.example.", false);

    assert_eq!(result.rule_filter, Some(FilterResult::OnlyIPv6));
    assert!(result.query_filtered);
    assert_eq!(result.cache_records.as_ref().map(Vec::len), Some(1));
}

#[test]
fn check_domain_handles_local_tld_before_upstream_rules() {
    let domain = PreprocessedDomain::new("printer.local.");
    let found = Some(rule(3, 0, FilterResult::Unfilter, true));
    let step = check_domain(
        &domain, "printer.local.", RecordType::A, true, None, true, None, None, found,
    );
    let result = match step {
        CheckStep::Done(result) => result,
        other => panic!("expected a result, got {other:?}"),
    };

    assert!(result.rule_id.is_none());
    assert!(result.records.as_ref().is_some_and(Vec::is_empty));
    assert!(result.cache_records.is_none());
}

#[test]
fn checks_show_redirects_and_upstream_answers() {
    let domain = PreprocessedDomain::new("example.com.");
    let redirect = RedirectAnswer {
        records: vec![sample_a_record("example.com.", 17, Ipv4Addr { bits: 1 })],
        outcome: DnsOutcome::Local,
        redirect_id: Some(4),
        dynamic_redirect_source: Some("src".to_string()),
    };
    let step = check_domain(
        &domain, "example.com.", RecordType::A, true, Some(redirect), false, None, None, None,
    );
    match step {
        CheckStep::LookInCache(r) => {
            assert_eq!((r.redirect_id, r.records.unwrap().len()), (Some(4), 1));
            assert_eq!(r.dynamic_redirect_source.as_deref(), Some("src"));
        }
        other => panic!("expected a look into the cache, got {other:?}"),
    }
    let found = rule(3, 0, FilterResult::OnlyIPv4, true);
    let step = check_domain(
        &domain, "example.com.", RecordType::A, true, None, false, None, None, Some(found),
    );
    let partial = match step {
        CheckStep::AskUpstream(r) => r,
        other => panic!("expected a question upstream, got {other:?}"),
    };
    assert_eq!(partial.rule_id, Some(3));
    let records = vec![
        sample_a_record("example.com.", 9, Ipv4Addr { bits: 1 }),
        Record {
            name: "example.com.".to_string(),
            ttl: 9,
            data: RData::AAAA(Ipv6Addr { bits: 1 }),
        },
    ];
    let shown = check_upstream(partial, &found, true, UpstreamReply::Records(records));
    assert_eq!(shown.records.as_ref().map(Vec::len), Some(1));
    let unchanged =
        check_upstream(shown, &found, true, UpstreamReply::Failure(ResponseCode::ServFail));
    assert_eq!(unchanged.records.as_ref().map(Vec::len), Some(1));
    let arpa = PreprocessedDomain::new("x.arpa.");
    let step = check_domain(
        &arpa, "x.arpa.", RecordType::A, true, None, false, None, None, None,
    );
    assert!(matches!(step, CheckStep::Arpa));
    assert_eq!(check_arpa(vec![]).records.map(|r| r.len()), Some(0));
}

#[test]
fn refresh_cache_entry_handles_local_zones_without_upstream_rule_refresh() {
    let domain = PreprocessedDomain::new("foo.localhost.");
    let found = Some(rule(3, 0, FilterResult::Unfilter, true));
    let step = refresh_cache_entry(
        &domain, "foo.localhost.", RecordType::AAAA, false, false, None, None, found,
    )
    .unwrap();
    let result = match step {
        RefreshStep::Done(result) => result,
        other => panic!("expected a result, got {other:?}"),
    };

    assert!(result.rule_id.is_none());
    assert_eq!(result.records.as_ref().map(Vec::len), Some(1));
    assert!(result.cache_records.is_none());
}

#[test]
fn refreshes_are_turned_away_or_settled() {
    let domain = PreprocessedDomain::new("example.com.");
    let start = |redirected: bool, found: Option<ResolutionRule>| {
        refresh_cache_entry(
            &domain, "example.com.", RecordType::A, redirected, false, None, None, found,
        )
    };
    let redirected = start(true, None).unwrap_err();
    assert_eq!(redirected, DnsError::RefreshRedirected("example.com.".to_string()));
    let ruleless = start(false, None).unwrap_err();
    assert_eq!(ruleless, DnsError::RefreshRequiresRule("example.com.".to_string()));

    let settle = |filter: FilterResult, reply: UpstreamReply| {
        let found = rule(3, 0, filter, true);
        let result = match start(false, Some(found)) {
            Ok(RefreshStep::AskUpstream(result)) => result,
            other => panic!("expected a question upstream, got {other:?}"),
        };
        refresh_upstream(result, &domain, &found, RecordType::A, true, reply, 30, 5)
    };
    let answer = || {
        UpstreamReply::Records(vec![sample_a_record("example.com.", 9, Ipv4Addr { bits: 1 })])
    };
    match settle(FilterResult::Unfilter, answer()) {
        Ok((result, CacheChange::Put(Some(item)))) => {
            assert_eq!(result.records.map(|r| r.len()), Some(1));
            assert_eq!((item.min_ttl, item.insert_time), (9, 5));
        }
        other => panic!("expected a cached answer, got {other:?}"),
    }
    assert!(matches!(settle(FilterResult::OnlyIPv6, answer()), Ok((_, CacheChange::Drop))));
    let failure = |code: ResponseCode| UpstreamReply::Failure(code);
    assert!(matches!(
        settle(FilterResult::Unfilter, failure(ResponseCode::NXDomain)),
        Ok((_, CacheChange::Put(Some(item)))) if item.min_ttl == 30
    ));
    assert_eq!(
        settle(FilterResult::Unfilter, failure(ResponseCode::ServFail)).unwrap_err(),
        DnsError::RefreshFailed("example.com.".to_string())
    );
    assert!(settle(FilterResult::OnlyIPv6, failure(ResponseCode::ServFail)).is_ok());
}

#[test]
fn test_negative_cache_ttl_updates_are_shared_across_clones() {
    let server = Arc::new(Mutex::new(LandscapeDnsServer::new(test_cache_runtime_config(7), None)));
    let desired = FlowDnsDesiredState::default();
    let handler = (server.clone(), Arc::new(Mutex::new(DnsRequestHandler::new(desired, 9, None))));
    let handler_clone = handler.clone();

    server.lock().unwrap().update_runtime_config(test_cache_runtime_config(33));
    assert!(handler.1.lock().unwrap().renew_runtime_config(false, &vec![]).is_none());

    let (live, _) = handler_clone.0.lock().unwrap().current_live_runtime_config();
    let cache_item = handler_clone
        .1
        .lock()
        .unwrap()
        .insert(
            &live,
            vec![],
            ResponseCode::NXDomain,
            no_mark(),
            FilterResult::Unfilter,
            None,
            None,
            0,
        )
        .expect("cache item must exist");

    assert_eq!(cache_item.min_ttl, 33);
    assert_eq!(cache_item.response_code, ResponseCode::NXDomain);
    assert!(cache_item.rdatas.is_empty());
    assert_eq!(cache_item.mark.priority, 0);
}

#[test]
fn renew_redirect_rules_replaces_redirects_without_touching_resolves_or_cache() {
    let mut desired = FlowDnsDesiredState::default();
    desired.dns_rules = vec![runtime_rule(1, 0)];
    desired.redirect_rules = vec![redirect_rule("old.example.com", v4(192, 168, 1, 1), 17)];
    let mut handler = DnsRequestHandler::new(desired, 1, None);

    handler.renew_redirect_rules(vec![redirect_rule("new.example.com", v4(127, 0, 0, 1), 33)]);

    assert_eq!(handler.resolves(), &vec![runtime_rule(1, 0)]);
    let redirect = |name: &str| {
        lookup_redirects(&candidates(handler.redirect_rules(), name, RecordType::A, &[]), false)
    };
    assert!(redirect("old.example.com.").is_none());
    assert_eq!(redirect("new.example.com.").unwrap().records[0].ttl, 33);
}

#[test]
fn renew_runtime_config_rebuilds_cache_without_reloading_rules_or_redirects() {
    let mut desired = FlowDnsDesiredState::default();
    desired.dns_rules = vec![runtime_rule(1, 0)];
    desired.redirect_rules = vec![redirect_rule("example.com", v4(127, 0, 0, 1), 17)];
    let handler = DnsRequestHandler::new(desired, 1, None);
    let item = handler
        .insert(
            &test_cache_runtime_config(5),
            vec![sample_a_record("cached.example.com.", 60, Ipv4Addr::new(1, 1, 1, 1))],
            ResponseCode::NoError,
            no_mark(),
            FilterResult::Unfilter,
            None,
            None,
            0,
        )
        .unwrap();
    let entry = CacheEntry {
        domain: "cached.example.com.".to_string(),
        query_type: RecordType::A,
        item,
        rules: vec![rule(1, 0, FilterResult::Unfilter, true)],
    };

    let mut server = LandscapeDnsServer::new(test_cache_runtime_config(5), None);
    server.update_runtime_config(CacheRuntimeConfig {
        cache_capacity: 16,
        cache_ttl: 120,
        negative_cache_ttl: 22,
    });
    let kept = handler.renew_runtime_config(true, &vec![entry]).unwrap();

    assert_eq!(handler.resolves(), &vec![runtime_rule(1, 0)]);
    assert_eq!(
        handler.redirect_rules(),
        &vec![redirect_rule("example.com", v4(127, 0, 0, 1), 17)]
    );
    assert_eq!(server.current_live_runtime_config().0.negative_cache_ttl, 22);
    assert!(kept.iter().any(|(name, t, _)| name == "cached.example.com." && *t == RecordType::A));
    assert_eq!(kept[0].2.min_ttl, 60);
}

#[test]
fn all_local_ips_redirect_uses_provider_records() {
    let mut redirect = redirect_rule("example.com", v4(0, 0, 0, 0), 17);
    redirect.answer_mode = DnsRedirectAnswerMode::AllLocalIps;
    let local = [v4(192, 168, 1, 1), localhost_v6()];
    let listed = candidates(&[redirect], "example.com.", RecordType::A, &local);

    let answer = lookup_redirects(&listed, true).unwrap();

    assert_eq!(answer.outcome, DnsOutcome::Local);
    assert_eq!(answer.redirect_id, Some(0));
    assert_eq!(answer.records.len(), 1);
    assert_eq!(answer.records[0].record_type(), RecordType::A);
    assert_eq!(answer.records[0].ttl, 17);
    assert!(matches!(
        &answer.records[0].data,
        RData::A(ip) if *ip == Ipv4Addr::new(192, 168, 1, 1)
    ));
    assert!(lookup_redirects(&listed, false).is_none());
}

#[test]
fn all_local_ips_redirect_without_family_candidates_falls_through() {
    let mut redirect = redirect_rule("example.com", v4(0, 0, 0, 0), 17);
    redirect.answer_mode = DnsRedirectAnswerMode::AllLocalIps;
    let local = [v4(192, 168, 1, 1)];
    let listed = candidates(&[redirect], "example.com.", RecordType::AAAA, &local);

    assert!(lookup_redirects(&listed, true).is_none());
}

#[test]
fn static_redirect_without_matching_family_keeps_existing_no_record_behavior() {
    let redirect = redirect_rule("example.com", v4(192, 168, 1, 1), 17);
    let listed = candidates(&[redirect], "example.com.", RecordType::AAAA, &[]);

    let answer = lookup_redirects(&listed, false).unwrap();

    assert!(answer.records.is_empty());
    assert_eq!(answer.outcome, DnsOutcome::Local);
    assert_eq!(answer.redirect_id, Some(0));
}

#[test]
fn blocking_redirects_come_before_everything() {
    let mut listed = candidates(
        &[redirect_rule("foo.test", v4(0, 0, 0, 0), 1)],
        "foo.test.",
        RecordType::A,
        &[],
    );
    listed[0].is_block = true;
    let redirect = lookup_redirects(&listed, false);
    let step =
        handle_request(1, true, true, "foo.test.", RecordType::A, redirect, false, None, None);
    let (records, outcome) = responded(step);
    assert_eq!((records.len(), outcome), (1, DnsOutcome::Block));
}

#[test]
fn cached_answers_grow_old() {
    let found = rule(3, 0, FilterResult::Unfilter, true);
    let records = vec![
        sample_a_record("a.", 50, Ipv4Addr { bits: 1 }),
        sample_a_record("a.", 20, Ipv4Addr { bits: 2 }),
    ];
    let item = item_under_rule(records, ResponseCode::NoError, &found, 5, 10 * SECOND).unwrap();
    assert_eq!(item.min_ttl, 20);
    let ttls = |now: u128| {
        lookup_cache(&item, now).map(|c| c.records.iter().map(|r| r.ttl).collect::<Vec<_>>())
    };
    assert_eq!(ttls(10 * SECOND), Some(vec![20, 20]));
    assert_eq!(ttls(0), Some(vec![20, 20]));
    assert_eq!(ttls(13 * SECOND - 1), Some(vec![18, 18]));
    assert_eq!(ttls(30 * SECOND), Some(vec![0, 0]));
    assert_eq!(ttls(31 * SECOND), None);
    let fleeting = vec![sample_a_record("a.", 0, Ipv4Addr { bits: 1 })];
    assert!(item_under_rule(fleeting, ResponseCode::NoError, &found, 5, 0).is_none());
    assert!(item_under_rule(vec![], ResponseCode::NXDomain, &found, 0, 0).is_none());
}

#[test]
fn upstream_answers_are_cached_and_repeated() {
    let found = rule(3, 0, FilterResult::OnlyIPv4, true);
    let asked = resolve_from_cache_or_upstream(RecordType::A, None, Some(found));
    assert!(matches!(asked, CacheOrUpstream::Ask(r) if r == found));
    let records = vec![
        sample_a_record("a.", 50, Ipv4Addr { bits: 1 }),
        Record { name: "a.".to_string(), ttl: 50, data: RData::AAAA(Ipv6Addr { bits: 1 }) },
    ];
    let (item, answer, outcome) =
        settle_upstream(&found, UpstreamReply::Records(records), 5, 0);
    assert_eq!((answer.len(), outcome), (1, DnsOutcome::Normal));
    let item = item.unwrap();
    assert_eq!(item.rdatas.len(), 2);
    let again =
        resolve_from_cache_or_upstream(RecordType::A, lookup_cache(&item, 0), Some(found));
    assert!(matches!(again, CacheOrUpstream::Answer(r, DnsOutcome::Hit) if r.len() == 1));
    let away =
        resolve_from_cache_or_upstream(RecordType::AAAA, lookup_cache(&item, 0), Some(found));
    assert!(matches!(away, CacheOrUpstream::Answer(r, DnsOutcome::Filter) if r.is_empty()));
    let unasked = resolve_from_cache_or_upstream(RecordType::AAAA, None, Some(found));
    assert!(matches!(unasked, CacheOrUpstream::Answer(_, DnsOutcome::Filter)));
    let ruleless = resolve_from_cache_or_upstream(RecordType::A, None, None);
    assert!(matches!(ruleless, CacheOrUpstream::Answer(_, DnsOutcome::Normal)));

    let settle = |code: ResponseCode| settle_upstream(&found, UpstreamReply::Failure(code), 5, 0);
    let (negative, _, outcome) = settle(ResponseCode::NXDomain);
    assert_eq!(outcome, DnsOutcome::NxDomain);
    let again = resolve_from_cache_or_upstream(
        RecordType::A,
        lookup_cache(&negative.unwrap(), 0),
        Some(found),
    );
    assert!(matches!(again, CacheOrUpstream::Answer(_, DnsOutcome::NxDomain)));
    assert!(matches!(settle(ResponseCode::NoError), (Some(_), _, DnsOutcome::Normal)));
    assert!(matches!(settle(ResponseCode::Refused), (None, _, DnsOutcome::Error)));
}

fn cached_under(id: Option<u128>, order: Option<u32>, min_ttl: u32) -> CacheDNSItem {
    CacheDNSItem {
        rdatas: vec![sample_a_record("a.", min_ttl, Ipv4Addr { bits: 1 })],
        response_code: ResponseCode::NoError,
        mark: no_mark(),
        insert_time: 3,
        min_ttl,
        filter: FilterResult::Unfilter,
        matched_rule_id: id,
        matched_rule_order: order,
    }
}

#[test]
fn cached_answers_go_under_the_new_rules() {
    let any = FilterResult::OnlyIPv4;
    let rules = vec![rule(1, 5, any, true), rule(2, 6, any, true), rule(3, 7, any, false)];
    let find = |id: Option<u128>, order: Option<u32>| {
        find_cache_rule(&rules, &cached_under(id, order, 9)).map(|r| r.config_id)
    };
    assert_eq!(find(Some(2), Some(6)), Some(2));
    assert_eq!(find(Some(9), Some(6)), Some(1));
    assert_eq!(find(Some(3), Some(7)), Some(1));
    assert_eq!(find(None, Some(6)), Some(1));
    assert_eq!(find(Some(2), None), Some(1));
    assert!(find_cache_rule(&rules[2..], &cached_under(Some(3), Some(7), 9)).is_none());

    let moved = migrate_item(&cached_under(Some(2), Some(6), 9), &rules, Some(5)).unwrap();
    assert_eq!((moved.min_ttl, moved.insert_time), (5, 3));
    assert_eq!((moved.matched_rule_id, moved.matched_rule_order), (Some(2), Some(6)));
    assert_eq!((moved.mark.mark, moved.filter), (6, FilterResult::OnlyIPv4));
    assert_eq!(moved.rdatas[0].ttl, 9);
}

#[test]
fn rule_changes_rebuild_the_cache() {
    let entry = |domain: &str, rules: Vec<ResolutionRule>| CacheEntry {
        domain: domain.to_string(),
        query_type: RecordType::A,
        item: cached_under(Some(1), Some(0), 90),
        rules,
    };
    let unfiltered = FilterResult::Unfilter;
    let entries = vec![
        entry("kept.", vec![rule(1, 0, unfiltered, true)]),
        entry("gone.", vec![rule(1, 0, unfiltered, false)]),
    ];
    assert_eq!(migrate_cache(&entries, None)[0].2.min_ttl, 90);

    let mut handler = make_test_handler(vec![runtime_rule(1, 0)]);
    let mut desired = FlowDnsDesiredState::default();
    desired.dns_rules = vec![runtime_rule(8, 4), runtime_rule(7, 2), runtime_rule(9, 4)];
    desired.redirect_rules = vec![redirect_rule("example.com", v4(1, 2, 3, 4), 17)];
    let plan = DnsRefreshPlan::ApplyHandler(HandlerRefreshPlan::ReplaceRules {
        include_redirects: false,
    });
    let kept = handler.apply_handler_plan(&desired, &plan, &entries).unwrap();
    assert_eq!(kept.len(), 1);
    assert_eq!((kept[0].0.as_str(), kept[0].2.min_ttl), ("kept.", 5));
    let ids: Vec<u128> = handler.resolves().iter().map(|r| r.rule_id).collect();
    assert_eq!(ids, vec![7, 9]);
    assert!(handler.redirect_rules().is_empty());

    let plan = DnsRefreshPlan::ApplyHandler(HandlerRefreshPlan::ReplaceRedirects);
    assert!(handler.apply_handler_plan(&desired, &plan, &entries).is_none());
    assert_eq!(handler.redirect_rules().len(), 1);
    assert!(handler.apply_handler_plan(&desired, &DnsRefreshPlan::Noop, &entries).is_none());
    assert_eq!(handler.renew_rules(desired, &entries).len(), 1);
    assert_eq!(handler.flow_id(), 1);
}

#[test]
fn last_rule_for_a_place_stands() {
    let built = build_resolves(vec![runtime_rule(1, 9), runtime_rule(2, 3), runtime_rule(3, 9)]);
    let places: Vec<(u32, u128)> = built.iter().map(|r| (r.order, r.rule_id)).collect();
    assert_eq!(places, vec![(3, 2), (9, 3)]);
}

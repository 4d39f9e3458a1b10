//! The reverse proxy: routes, paths, headers and failures.
use landscape::gateway::error::GatewayError;
use landscape::gateway::failure::{
    build_gateway_error_body, classify_proxy_error, is_own_failure, no_upstream_targets_error,
    path_rewrite_failed_error, route_not_matched_error, status_line, trailing_slash_redirect_error,
    ErrorKind, ErrorSource, GatewayErrorResponse, ProxyError,
};
use landscape::gateway::headers::{
    apply_client_ip_headers, apply_configured_headers, build_gateway_error_response_header,
    build_redirect_response_header, normalize_status_code,
};
use landscape::gateway::path::{
    apply_path_rewrite, normalize_prefix, path_matches_prefix, rewrite_path_and_query,
    trailing_slash_redirect_location,
};
use landscape::gateway::proxy::{
    fail_to_proxy, upstream_request_filter, FailureAnswer, LandscapeReverseProxy,
    SelectedTarget,
};
use landscape::gateway::route::{extract_host, host_from, match_http_route};
use landscape::gateway::rules::{
    ClientIpHeaderPolicy, HttpPathGroup, HttpUpstreamConfig, HttpUpstreamMatchRule,
    HttpUpstreamMatchRuleCompat, HttpUpstreamRuleConfig, HttpUpstreamRuleConfigCompat,
    HttpUpstreamTarget, LoadBalanceMethod, PathRewriteMode, ProxyHeaderConflictMode,
    ProxyRequestHeader,
};
use landscape::net::{IpAddr, Ipv4Addr, Ipv6Addr};
use pingora_http::RequestHeader;

fn target(address: &str, port: u16, weight: u32) -> HttpUpstreamTarget {
    HttpUpstreamTarget {
        address: address.to_string(),
        port,
        weight,
        tls: false,
        skip_cert_verify: false,
    }
}

fn upstream_config() -> HttpUpstreamConfig {
    HttpUpstreamConfig {
        targets: vec![target("127.0.0.1", 8080, 1)],
        load_balance: LoadBalanceMethod::RoundRobin,
        health_check: None,
        request_headers: vec![],
        header_conflict_mode: ProxyHeaderConflictMode::Replace,
        client_ip_headers: ClientIpHeaderPolicy::Standard,
    }
}

fn rule(name: &str, domains: &[&str], match_rule: HttpUpstreamMatchRule) -> HttpUpstreamRuleConfig {
    HttpUpstreamRuleConfig {
        id: 7,
        enable: true,
        name: name.to_string(),
        domains: domains.iter().map(|domain| domain.to_string()).collect(),
        match_rule,
        upstream: upstream_config(),
    }
}

fn request(target: &str) -> RequestHeader {
    RequestHeader::build("GET", target.as_bytes(), None).unwrap()
}

fn values(request: &RequestHeader, name: &str) -> Vec<String> {
    let all = request.headers.get_all(name);
    all.iter().map(|value| value.to_str().unwrap().to_string()).collect()
}

fn configured(name: &str, value: &str) -> ProxyRequestHeader {
    ProxyRequestHeader { name: name.to_string(), value: value.to_string() }
}

#[test]
fn match_http_route_prefers_exact_host_before_wildcard() {
    let rules = vec![
        rule("wildcard", &["*.example.com"], HttpUpstreamMatchRule::Host { path_groups: vec![] }),
        rule("exact", &["api.example.com"], HttpUpstreamMatchRule::Host { path_groups: vec![] }),
    ];

    let matched = match_http_route(&rules, Some("api.example.com"), "/api/v1").unwrap();
    assert_eq!(matched.rule_name, "exact");
}

#[test]
fn match_http_route_prefers_longest_path_group() {
    let rules = vec![rule(
        "host",
        &["api.example.com"],
        HttpUpstreamMatchRule::Host {
            path_groups: vec![
                HttpPathGroup {
                    prefix: "/api".to_string(),
                    rewrite_mode: PathRewriteMode::Preserve,
                    upstream: upstream_config(),
                },
                HttpPathGroup {
                    prefix: "/api/v1".to_string(),
                    rewrite_mode: PathRewriteMode::StripPrefix,
                    upstream: upstream_config(),
                },
            ],
        },
    )];

    let matched = match_http_route(&rules, Some("api.example.com"), "/api/v1/users").unwrap();
    assert_eq!(matched.matched_prefix, Some("/api/v1"));
    assert!(matches!(matched.rewrite_mode, PathRewriteMode::StripPrefix));
}

#[test]
fn match_http_route_falls_back_to_default_upstream_when_no_group_matches() {
    let rules = vec![rule(
        "host",
        &["api.example.com"],
        HttpUpstreamMatchRule::Host {
            path_groups: vec![HttpPathGroup {
                prefix: "/api".to_string(),
                rewrite_mode: PathRewriteMode::Preserve,
                upstream: upstream_config(),
            }],
        },
    )];

    let matched = match_http_route(&rules, Some("api.example.com"), "/about").unwrap();
    assert!(matched.matched_prefix.is_none());
    assert!(matches!(matched.rewrite_mode, PathRewriteMode::Preserve));
}

#[test]
fn match_http_route_uses_legacy_fallback_without_host() {
    let rules = vec![rule(
        "legacy",
        &[],
        HttpUpstreamMatchRule::LegacyPathPrefix { prefix: "/api".to_string() },
    )];

    let matched = match_http_route(&rules, None, "/api/v1").unwrap();
    assert_eq!(matched.rule_name, "legacy");
}

#[test]
fn routes_are_looked_for_stage_by_stage() {
    let legacy = |name: &str, domains: &[&str]| {
        rule(
            name,
            domains,
            HttpUpstreamMatchRule::LegacyPathPrefix { prefix: "/api".to_string() },
        )
    };
    let mut rules = vec![
        legacy("any", &[]),
        legacy("below", &["*.example.com"]),
        legacy("named", &["a.example.com"]),
        rule("off", &["a.example.com"], HttpUpstreamMatchRule::Host { path_groups: vec![] }),
    ];
    rules[3].enable = false;
    let name = |rules: &Vec<HttpUpstreamRuleConfig>, host: Option<&str>, path: &str| {
        match_http_route(rules, host, path).map(|r| r.rule_name.to_string())
    };
    assert_eq!(name(&rules, Some("A.Example.com"), "/api"), Some("named".to_string()));
    assert_eq!(name(&rules, Some("b.example.com"), "/api"), Some("below".to_string()));
    assert_eq!(name(&rules, Some("other.org"), "/api"), Some("any".to_string()));
    assert_eq!(name(&rules, Some("a.example.com"), "/about"), None);
    rules[3].enable = true;
    assert_eq!(name(&rules, Some("a.example.com"), "/about"), Some("off".to_string()));
}

#[test]
fn last_of_equally_long_prefixes_is_taken() {
    let group = |prefix: &str, port: u16| {
        let mut upstream = upstream_config();
        upstream.targets = vec![target("10.0.0.1", port, 1)];
        HttpPathGroup {
            prefix: prefix.to_string(),
            rewrite_mode: PathRewriteMode::Preserve,
            upstream,
        }
    };
    let rules = vec![rule(
        "host",
        &["h"],
        HttpUpstreamMatchRule::Host { path_groups: vec![group("/a", 1), group("/a/", 2)] },
    )];
    let matched = match_http_route(&rules, Some("h"), "/a/b").unwrap();
    assert_eq!(matched.upstream.targets[0].port, 2);
}

#[test]
fn hosts_come_from_header_or_authority() {
    let host = |header: Option<&str>, authority: Option<&str>| host_from(header, authority);
    assert_eq!(host(Some("API.example.com:8443"), None).as_deref(), Some("api.example.com"));
    assert_eq!(host(Some("a"), Some("B")).as_deref(), Some("a"));
    assert_eq!(host(None, Some("B.org")).as_deref(), Some("b.org"));
    assert_eq!(host(None, None), None);

    let mut req = request("/x");
    assert_eq!(extract_host(&req), None);
    req.insert_header("Host", &b"caf\xe9.example"[..]).unwrap();
    assert_eq!(extract_host(&req), None);
    req.set_uri(http::Uri::from_static("http://Up.example:81/x"));
    assert_eq!(extract_host(&req).as_deref(), Some("up.example"));
    req.insert_header("Host", "Down.example:80").unwrap();
    assert_eq!(extract_host(&req).as_deref(), Some("down.example"));
}

#[test]
fn path_matches_prefix_uses_segment_boundaries() {
    assert!(path_matches_prefix("/api", "/api"));
    assert!(path_matches_prefix("/api/users", "/api"));
    assert!(!path_matches_prefix("/apix", "/api"));
}

#[test]
fn prefixes_are_cleaned_before_use() {
    assert_eq!(normalize_prefix("  /api// "), "/api");
    assert_eq!(normalize_prefix("/"), "/");
    assert_eq!(normalize_prefix("//"), "");
    assert!(path_matches_prefix("/x", "/"));
    assert!(!path_matches_prefix("x", "/"));
    assert!(path_matches_prefix("/x", ""));
}

#[test]
fn rewrite_path_and_query_strips_prefix_and_keeps_query() {
    assert_eq!(rewrite_path_and_query("/api/users?id=1", "/api"), "/users?id=1");
    assert_eq!(rewrite_path_and_query("/api", "/api"), "/");
    assert_eq!(rewrite_path_and_query("/foo", "/"), "/foo");
}

#[test]
fn paths_are_rewritten_only_where_the_route_says_so() {
    let strip = PathRewriteMode::StripPrefix;
    assert_eq!(apply_path_rewrite("/api/a?b", strip, Some("/api")).as_deref(), Some("/a?b"));
    assert_eq!(apply_path_rewrite("/apix", strip, Some("/api")), None);
    assert_eq!(apply_path_rewrite("/api/a", strip, None), None);
    assert_eq!(apply_path_rewrite("/api/a", PathRewriteMode::Preserve, Some("/api")), None);
}

#[test]
fn trailing_slash_redirect_location_adds_slash_and_keeps_query() {
    assert_eq!(
        trailing_slash_redirect_location("/ai?mode=demo", Some("/ai")),
        Some("/ai/?mode=demo".to_string())
    );
    assert_eq!(trailing_slash_redirect_location("/ai", Some("/ai/")), Some("/ai/".to_string()));
}

#[test]
fn trailing_slash_redirect_location_ignores_root_and_already_suffixed_paths() {
    assert_eq!(trailing_slash_redirect_location("/", Some("/")), None);
    assert_eq!(trailing_slash_redirect_location("/ai/", Some("/ai")), None);
    assert_eq!(trailing_slash_redirect_location("/ai/assets/app.js", Some("/ai")), None);
    assert_eq!(trailing_slash_redirect_location("/about", None), None);
}

#[test]
fn redirected_clients_are_not_redirected_again() {
    for start in ["/ai", "/ai?x=/y?z"] {
        let location = trailing_slash_redirect_location(start, Some("/ai")).unwrap();
        assert_eq!(trailing_slash_redirect_location(&location, Some("/ai")), None);
    }
}

#[test]
fn apply_client_ip_headers_sets_standard_proxy_headers() {
    let mut request = RequestHeader::build("GET", b"/", None).unwrap();

    apply_client_ip_headers(&mut request, IpAddr::V4(Ipv4Addr::new(203, 0, 113, 5))).unwrap();

    let xff: Vec<_> = request.headers.get_all("x-forwarded-for").iter().collect();
    let forwarded: Vec<_> = request.headers.get_all("forwarded").iter().collect();

    assert_eq!(xff.len(), 1);
    assert_eq!(xff[0], "203.0.113.5");
    assert_eq!(request.headers.get("x-real-ip").unwrap(), "203.0.113.5");
    assert_eq!(forwarded.len(), 1);
    assert_eq!(forwarded[0], "for=203.0.113.5");
}

#[test]
fn ipv6_clients_are_quoted_in_the_forwarded_header() {
    let mut req = request("/");
    req.insert_header("X-Forwarded-For", "10.0.0.1").unwrap();
    req.insert_header("X-Real-IP", "10.0.0.1").unwrap();
    apply_client_ip_headers(&mut req, IpAddr::V6(Ipv6Addr { bits: 1 })).unwrap();
    assert_eq!(values(&req, "x-forwarded-for"), vec!["10.0.0.1", "::1"]);
    assert_eq!(values(&req, "x-real-ip"), vec!["::1"]);
    assert_eq!(values(&req, "forwarded"), vec!["for=\"[::1]\""]);
}

#[test]
fn apply_configured_headers_set_overrides_existing_value() {
    let mut request = RequestHeader::build("GET", b"/", None).unwrap();
    request.insert_header("X-Test", "old").unwrap();

    apply_configured_headers(
        &mut request,
        &vec![ProxyRequestHeader { name: "X-Test".to_string(), value: "new".to_string() }],
        ProxyHeaderConflictMode::Replace,
    )
    .unwrap();

    let values: Vec<_> = request.headers.get_all("x-test").iter().collect();
    assert_eq!(values, vec!["new"]);
}

#[test]
fn apply_configured_headers_append_keeps_existing_value() {
    let mut request = RequestHeader::build("GET", b"/", None).unwrap();
    request.insert_header("X-Test", "old").unwrap();

    apply_configured_headers(
        &mut request,
        &vec![ProxyRequestHeader { name: "X-Test".to_string(), value: "new".to_string() }],
        ProxyHeaderConflictMode::Append,
    )
    .unwrap();

    let values: Vec<_> = request.headers.get_all("x-test").iter().collect();
    assert_eq!(values, vec!["old", "new"]);
}

#[test]
fn headers_are_added_up_to_the_first_that_is_not_allowed() {
    let refuses = |name: &str, value: &str| {
        let mut req = request("/");
        let headers = vec![configured("A", "1"), configured(name, value), configured("C", "3")];
        let r = apply_configured_headers(&mut req, &headers, ProxyHeaderConflictMode::Replace);
        assert_eq!(values(&req, "a"), vec!["1"]);
        match r {
            Ok(()) => {
                assert_eq!(values(&req, "c"), vec!["3"]);
                false
            }
            Err(e) => {
                assert!(values(&req, "c").is_empty());
                assert_eq!(classify_proxy_error(&e).reason_code, "internal_error");
                true
            }
        }
    };
    for name in ["", "a b", "a:", "n\u{e4}me", "(x)"] {
        assert!(refuses(name, "v"), "{name:?} is no name");
    }
    for value in ["\n", "a\rb", "\u{7f}", "\0"] {
        assert!(refuses("B", value), "{value:?} is no value");
    }
    for value in ["", "\t x ~", "caf\u{e9}", "\u{80}"] {
        assert!(!refuses("b!#$%&'*+-.^_`|~9", value), "{value:?} is a value");
    }
    assert!(refuses(&"x".repeat(65536), "v"));
    assert!(!refuses(&"x".repeat(65535), "v"));
}

#[test]
fn later_headers_of_one_name_replace_earlier_ones() {
    let mut req = request("/");
    let headers = vec![configured("X-One", "1"), configured("x-oNE", "2")];
    apply_configured_headers(&mut req, &headers, ProxyHeaderConflictMode::Replace).unwrap();
    assert_eq!(values(&req, "x-one"), vec!["2"]);
    apply_configured_headers(&mut req, &headers, ProxyHeaderConflictMode::Append).unwrap();
    assert_eq!(values(&req, "x-one"), vec!["2", "1", "2"]);
}

#[test]
fn classify_proxy_error_maps_route_not_matched_to_404() {
    let error = route_not_matched_error();

    assert_eq!(
        classify_proxy_error(&error),
        GatewayErrorResponse {
            status_code: 404,
            reason_code: "route_not_matched",
            user_message: "No gateway route matches this host and path.",
        }
    );
}

#[test]
fn classify_proxy_error_maps_no_upstream_targets_to_503() {
    let error = no_upstream_targets_error();

    assert_eq!(
        classify_proxy_error(&error),
        GatewayErrorResponse {
            status_code: 503,
            reason_code: "no_upstream_targets",
            user_message: "The matched route has no upstream targets configured.",
        }
    );
}

#[test]
fn classify_proxy_error_maps_upstream_timeout_to_504() {
    let error = ProxyError { kind: ErrorKind::ConnectTimedout, source: ErrorSource::Upstream };

    assert_eq!(
        classify_proxy_error(&error),
        GatewayErrorResponse {
            status_code: 504,
            reason_code: "upstream_timeout",
            user_message: "The upstream service timed out.",
        }
    );
}

#[test]
fn classify_proxy_error_maps_tls_failure_to_502() {
    let error = ProxyError { kind: ErrorKind::TlsHandshakeFailure, source: ErrorSource::Upstream };

    assert_eq!(
        classify_proxy_error(&error),
        GatewayErrorResponse {
            status_code: 502,
            reason_code: "upstream_tls_failed",
            user_message: "The upstream TLS handshake failed.",
        }
    );
}

#[test]
fn classify_proxy_error_maps_downstream_closed_to_no_response() {
    let error = ProxyError { kind: ErrorKind::ConnectionClosed, source: ErrorSource::Downstream };

    assert_eq!(
        classify_proxy_error(&error),
        GatewayErrorResponse {
            status_code: 0,
            reason_code: "downstream_closed",
            user_message: "The client connection closed before the response was sent.",
        }
    );
}

#[test]
fn every_kind_of_failure_has_its_reason() {
    let up = |kind: ErrorKind| {
        let r = classify_proxy_error(&ProxyError { kind, source: ErrorSource::Upstream });
        (r.status_code, r.reason_code)
    };
    assert_eq!(up(ErrorKind::ConnectRefused), (503, "upstream_connect_refused"));
    assert_eq!(up(ErrorKind::ConnectNoRoute), (503, "upstream_no_route"));
    assert_eq!(up(ErrorKind::SocketError), (503, "upstream_connect_failed"));
    assert_eq!(up(ErrorKind::H2Downgrade), (502, "upstream_invalid_response"));
    assert_eq!(up(ErrorKind::WriteError), (502, "upstream_io_failed"));
    assert_eq!(up(ErrorKind::Unlisted), (502, "upstream_error"));
    assert_eq!(up(ErrorKind::HttpStatus(418)), (418, "http_status"));
    assert_eq!(up(ErrorKind::HttpStatus(1000)), (500, "http_status"));
    let down = ProxyError { kind: ErrorKind::ReadTimedout, source: ErrorSource::Downstream };
    assert_eq!(classify_proxy_error(&down).reason_code, "downstream_error");
    let own = ProxyError { kind: ErrorKind::ReadTimedout, source: ErrorSource::Unset };
    assert_eq!(classify_proxy_error(&own).reason_code, "internal_error");
    assert!(is_own_failure(&own, &classify_proxy_error(&own)));
    assert!(!is_own_failure(&down, &classify_proxy_error(&down)));
    assert_eq!(
        classify_proxy_error(&path_rewrite_failed_error()).reason_code,
        "path_rewrite_failed"
    );
}

#[test]
fn build_gateway_error_body_includes_reason_code() {
    let body = build_gateway_error_body(&GatewayErrorResponse {
        status_code: 503,
        reason_code: "upstream_connect_failed",
        user_message: "The gateway could not connect to the upstream service.",
    });

    assert!(body.contains("503 Service Unavailable"));
    assert!(body.contains("Reason: upstream_connect_failed"));
    assert!(body.contains("The gateway could not connect to the upstream service."));
}

#[test]
fn status_lines_have_the_standard_phrase() {
    assert_eq!(status_line(404), "404 Not Found");
    assert_eq!(status_line(799), "799 Unknown Status");
    assert_eq!(status_line(42), "500 Internal Server Error");
    assert_eq!(normalize_status_code(99), 500);
    assert_eq!(normalize_status_code(100), 100);
    assert_eq!(normalize_status_code(999), 999);
}

#[test]
fn build_gateway_error_response_header_sets_text_plain_and_no_store() {
    let response = build_gateway_error_response_header(502, 12).unwrap();

    assert_eq!(response.status.as_u16(), 502);
    assert_eq!(response.headers.get("content-type").unwrap(), "text/plain; charset=utf-8");
    assert_eq!(response.headers.get("cache-control").unwrap(), "private, no-store");
    assert_eq!(response.headers.get("content-length").unwrap(), "12");
    assert_eq!(build_gateway_error_response_header(7, 0).unwrap().status.as_u16(), 500);
}

#[test]
fn build_redirect_response_header_sets_location_and_empty_body() {
    let response = build_redirect_response_header("/ai/?mode=demo").unwrap();

    assert_eq!(response.status.as_u16(), 308);
    assert_eq!(response.headers.get("location").unwrap(), "/ai/?mode=demo");
    assert_eq!(response.headers.get("cache-control").unwrap(), "private, no-store");
    assert_eq!(response.headers.get("content-length").unwrap(), "0");
    assert!(build_redirect_response_header("/a\nb").is_err());
}

#[test]
fn a_request_is_carried_from_rule_to_target() {
    let mut group = HttpPathGroup {
        prefix: "/api".to_string(),
        rewrite_mode: PathRewriteMode::StripPrefix,
        upstream: upstream_config(),
    };
    group.upstream.targets = vec![target("10.0.0.1", 80, 1), target("10.0.0.2", 80, 1)];
    group.upstream.request_headers = vec![configured("X-Env", "prod")];
    let mut proxy = LandscapeReverseProxy::new(vec![rule(
        "main",
        &["example.com"],
        HttpUpstreamMatchRule::Host { path_groups: vec![group] },
    )]);
    let mut req = request("/api/x?y=1");
    req.insert_header("Host", "Example.com:443").unwrap();
    assert!(proxy.can_choose_peer(&req));
    let mut ctx = proxy.new_ctx();
    let first = proxy.upstream_peer(&mut ctx, &req).unwrap();
    let second = proxy.upstream_peer(&mut ctx, &req).unwrap();
    assert_eq!((first.address.as_str(), second.address.as_str()), ("10.0.0.1", "10.0.0.2"));
    assert_eq!(first.connection_timeout_secs, 10);
    assert!(first.verify_cert && first.verify_hostname);
    assert_eq!(ctx.matched_rule_name.as_deref(), Some("main"));
    assert_eq!(ctx.request_path.as_deref(), Some("/api/x?y=1"));
    assert_eq!(
        ctx.selected_target.as_ref().map(SelectedTarget::display),
        Some("10.0.0.2:80 tls=false skip_cert_verify=false".to_string())
    );
    let client = Some(IpAddr::V4(Ipv4Addr::new(1, 2, 3, 4)));
    upstream_request_filter(&mut ctx, &mut req, client).unwrap();
    assert_eq!(req.raw_path(), b"/x?y=1");
    assert_eq!(ctx.rewritten_path.as_deref(), Some("/x?y=1"));
    assert_eq!(values(&req, "x-real-ip"), vec!["1.2.3.4"]);
    assert_eq!(values(&req, "x-env"), vec!["prod"]);

    let host = Some("example.com".to_string());
    let redirect = proxy.choose_peer(&mut ctx, host, "/api", "/api").unwrap_err();
    assert_eq!(redirect, trailing_slash_redirect_error());
    match fail_to_proxy(&ctx, &redirect, false) {
        (FailureAnswer::Redirect(location), 308) => assert_eq!(location, "/api/"),
        other => panic!("expected a redirect, got {other:?}"),
    }
    assert!(matches!(fail_to_proxy(&ctx, &redirect, true), (FailureAnswer::Silence, 308)));

    let lost = proxy.upstream_peer(&mut ctx, &request("/")).unwrap_err();
    assert_eq!(lost, route_not_matched_error());
    assert!(matches!(fail_to_proxy(&ctx, &lost, false), (FailureAnswer::Error(_), 404)));
}

#[test]
fn requests_with_very_many_fields_are_sent_on() {
    let mut main =
        rule("main", &["example.com"], HttpUpstreamMatchRule::Host { path_groups: vec![] });
    main.upstream.request_headers = vec![configured("X-5", "new"), configured("X-Last", "1")];
    let mut proxy = LandscapeReverseProxy::new(vec![main]);
    let mut ctx = proxy.new_ctx();
    let mut req = request("/");
    assert_eq!(upstream_request_filter(&mut ctx, &mut req, None), Ok(()));
    req.insert_header("Host", "example.com").unwrap();
    req.insert_header("X-Real-IP", "9.9.9.9").unwrap();
    for i in 0..5000 {
        req.append_header(format!("x-{i}"), "1").unwrap();
    }
    proxy.upstream_peer(&mut ctx, &req).unwrap();
    let client = Some(IpAddr::V4(Ipv4Addr::new(1, 2, 3, 4)));
    assert_eq!(upstream_request_filter(&mut ctx, &mut req, client), Ok(()));
    assert_eq!(values(&req, "x-real-ip"), vec!["1.2.3.4"]);
    assert_eq!(values(&req, "x-5"), vec!["new"]);
    assert_eq!(values(&req, "x-6"), vec!["1"]);
    assert_eq!(values(&req, "x-last"), vec!["1"]);
    assert_eq!(req.headers.keys_len(), 5005);
    let bad = vec![configured("X-6", "a\nb"), configured("X-7", "b")];
    let r = apply_configured_headers(&mut req, &bad, ProxyHeaderConflictMode::Replace);
    assert!(r.is_err());
    assert_eq!(values(&req, "x-6"), vec!["1"]);
    assert_eq!(values(&req, "x-7"), vec!["1"]);
}

#[test]
fn long_paths_are_stripped_and_sent_on() {
    let mut proxy = LandscapeReverseProxy::new(vec![rule(
        "main",
        &["h"],
        HttpUpstreamMatchRule::Host {
            path_groups: vec![HttpPathGroup {
                prefix: "/a".to_string(),
                rewrite_mode: PathRewriteMode::StripPrefix,
                upstream: upstream_config(),
            }],
        },
    )]);
    let long = format!("/a/{}", "x".repeat(65530));
    let mut ctx = proxy.new_ctx();
    let mut req = request(&long);
    req.insert_header("Host", "h").unwrap();
    proxy.upstream_peer(&mut ctx, &req).unwrap();
    assert_eq!(upstream_request_filter(&mut ctx, &mut req, None), Ok(()));
    assert_eq!(req.raw_path().len(), long.len() - 2);
}

#[test]
fn weights_that_leave_32_bits_are_noticed() {
    let rules = |load_balance: LoadBalanceMethod, last_weight: u32| {
        let mut group = HttpPathGroup {
            prefix: "/api".to_string(),
            rewrite_mode: PathRewriteMode::StripPrefix,
            upstream: upstream_config(),
        };
        group.upstream.targets = vec![target("a", 1, u32::MAX), target("b", 1, last_weight)];
        group.upstream.load_balance = load_balance;
        vec![rule("r", &["h"], HttpUpstreamMatchRule::Host { path_groups: vec![group] })]
    };
    let to = |path: &str| {
        let mut req = request(path);
        req.insert_header("Host", "h").unwrap();
        req
    };
    let mut proxy = LandscapeReverseProxy::new(rules(LoadBalanceMethod::RoundRobin, 1));
    assert!(proxy.can_choose_peer(&to("/api/x")));
    proxy.replace_rules(rules(LoadBalanceMethod::Consistent, 1));
    assert!(!proxy.can_choose_peer(&to("/api/x")));
    assert!(proxy.can_choose_peer(&to("/other")));
    assert!(proxy.can_choose_peer(&to("/api")));
    let mut ctx = proxy.new_ctx();
    let redirect = proxy.upstream_peer(&mut ctx, &to("/api")).unwrap_err();
    assert_eq!(redirect, trailing_slash_redirect_error());
    proxy.replace_rules(rules(LoadBalanceMethod::Consistent, 0));
    assert!(proxy.can_choose_peer(&to("/api/x")));
}

#[test]
fn unchecked_certificates_need_tls() {
    let mut tls = rule("r", &["h"], HttpUpstreamMatchRule::Host { path_groups: vec![] });
    tls.upstream.targets[0].tls = true;
    tls.upstream.targets[0].skip_cert_verify = true;
    let mut plain = rule("p", &["g"], HttpUpstreamMatchRule::Host { path_groups: vec![] });
    plain.upstream.targets[0].skip_cert_verify = true;
    let mut none = rule("n", &["f"], HttpUpstreamMatchRule::Host { path_groups: vec![] });
    none.upstream.targets.clear();
    let mut proxy = LandscapeReverseProxy::new(vec![tls, plain, none]);
    let mut ctx = proxy.new_ctx();
    let peer = proxy.choose_peer(&mut ctx, Some("h".to_string()), "/", "/").unwrap();
    assert!(peer.tls && !peer.verify_cert && !peer.verify_hostname);
    let peer = proxy.choose_peer(&mut ctx, Some("g".to_string()), "/", "/").unwrap();
    assert!(!peer.tls && peer.verify_cert && peer.verify_hostname);
    let error = proxy.choose_peer(&mut ctx, Some("f".to_string()), "/", "/").unwrap_err();
    assert_eq!(error, no_upstream_targets_error());
}

#[test]
fn older_rule_forms_are_read() {
    let compat = |domains: &[&str], match_rule: HttpUpstreamMatchRuleCompat| {
        HttpUpstreamRuleConfig::from_compat(HttpUpstreamRuleConfigCompat {
            id: 1,
            enable: true,
            name: "r".to_string(),
            domains: domains.iter().map(|d| d.to_string()).collect(),
            match_rule,
            upstream: upstream_config(),
        })
    };
    let nested = vec!["nested".to_string()];
    let r = compat(&[], HttpUpstreamMatchRuleCompat::SniProxy { domains: nested.clone() });
    assert_eq!(r.domains, nested);
    assert!(matches!(r.match_rule, HttpUpstreamMatchRule::SniProxy));
    let r = compat(
        &["own"],
        HttpUpstreamMatchRuleCompat::PathPrefix { domains: nested, prefix: "/p".to_string() },
    );
    assert_eq!(r.domains, vec!["own".to_string()]);
    assert!(matches!(r.match_rule, HttpUpstreamMatchRule::LegacyPathPrefix { .. }));
    assert_eq!(r.get_store_key(), "00000000-0000-0000-0000-000000000001");
    assert_eq!(r.get_id(), 1);
}

#[test]
fn gateway_errors_are_worded() {
    let e = GatewayError::HostConflict { domain: "d".to_string(), rule_name: "r".to_string() };
    assert_eq!(e.message(), "Host domain conflict: domain 'd' already used by rule 'r'");
    assert_eq!((e.error_id(), e.http_status_code()), ("gateway.host_conflict", 409));
    let e = GatewayError::NotFound(0x1234_5678_9abc_def0_0fed_cba9_8765_4321);
    assert_eq!(e.message(), "Gateway rule '12345678-9abc-def0-0fed-cba987654321' not found");
    assert_eq!(e.http_status_code(), 404);
    assert_eq!(GatewayError::SniProxyHeaderUnsupported.http_status_code(), 400);
}

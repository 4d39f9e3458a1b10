//! Which rule a request falls under.
use pingora_http::RequestHeader;
use vstd::prelude::*;
use vstd::utf8::encode_utf8;
use crate::gateway::domains::{any_domain_matches, domain_matches};
use crate::gateway::fields::field_text;
use crate::gateway::outside::{
    authority_of_request, host_field_of_request, path_and_query_of_request, path_of_request,
    request_authority, request_fields, request_path, request_path_and_query,
};
use crate::gateway::path::{
    best_group, clean_prefix, match_path_group, path_matches_prefix, under_prefix,
};
use crate::gateway::rules::{
    HttpUpstreamConfig, HttpUpstreamMatchRule, HttpUpstreamRuleConfig, PathRewriteMode,
};
use crate::text::{lower, opt_str, opt_text, split, split_on, texts, to_lower};

verus! {

/// Where a request goes.
pub struct ResolvedHttpRoute<'a> {
    pub rule_name: &'a str,
    pub upstream: &'a HttpUpstreamConfig,
    pub rewrite_mode: PathRewriteMode,
    pub matched_prefix: Option<&'a str>,
}

/// Whether an enabled rule for hosts has a domain that the name is under.
pub open spec fn host_rule_matches(
    rule: HttpUpstreamRuleConfig,
    host: Seq<char>,
    wildcard_only: bool,
) -> bool {
    rule.enable && rule.match_rule is Host && any_domain_matches(
        rule.domains@,
        host,
        wildcard_only,
    )
}

/// Whether an enabled rule is one by path, and the path lies under its prefix.
pub open spec fn legacy_rule_matches(rule: HttpUpstreamRuleConfig, path: Seq<char>) -> bool {
    &&& rule.enable
    &&& rule.match_rule matches HttpUpstreamMatchRule::LegacyPathPrefix { prefix } && under_prefix(
        path,
        clean_prefix(prefix@),
    )
}

/// The order in which rules are looked at.
pub enum RouteStage {
    /// Rules for hosts, by a domain that is no wildcard.
    HostExact,
    /// Rules for hosts, by a wildcard.
    HostWildcard,
    /// Rules by path with domains, by one that is no wildcard.
    LegacyExact,
    /// Rules by path with domains, by a wildcard.
    LegacyWildcard,
    /// Rules by path without domains.
    LegacyFallback,
}

/// Whether a rule is for a request at a stage.
pub open spec fn stage_matches(
    stage: RouteStage,
    rule: HttpUpstreamRuleConfig,
    host: Option<Seq<char>>,
    path: Seq<char>,
) -> bool {
    match stage {
        RouteStage::HostExact => host is Some && host_rule_matches(rule, host->0, false),
        RouteStage::HostWildcard => host is Some && host_rule_matches(rule, host->0, true),
        RouteStage::LegacyExact => host is Some && legacy_rule_matches(rule, path)
            && any_domain_matches(rule.domains@, host->0, false),
        RouteStage::LegacyWildcard => host is Some && legacy_rule_matches(rule, path)
            && any_domain_matches(rule.domains@, host->0, true),
        RouteStage::LegacyFallback => legacy_rule_matches(rule, path) && rule.domains@.len() == 0,
    }
}

/// The first rule from number `i` on that is for a request at a stage.
pub open spec fn first_at(
    stage: RouteStage,
    rules: Seq<HttpUpstreamRuleConfig>,
    host: Option<Seq<char>>,
    path: Seq<char>,
    i: int,
) -> Option<int>
    decreases rules.len() - i,
{
    if i < 0 || i >= rules.len() {
        None
    } else if stage_matches(stage, rules[i], host, path) {
        Some(i)
    } else {
        first_at(stage, rules, host, path, i + 1)
    }
}

/// The rule that a request falls under: the first at the first stage that has
/// one.
pub open spec fn rule_for(
    rules: Seq<HttpUpstreamRuleConfig>,
    host: Option<Seq<char>>,
    path: Seq<char>,
) -> Option<int> {
    let a = first_at(RouteStage::HostExact, rules, host, path, 0);
    let b = first_at(RouteStage::HostWildcard, rules, host, path, 0);
    let c = first_at(RouteStage::LegacyExact, rules, host, path, 0);
    let d = first_at(RouteStage::LegacyWildcard, rules, host, path, 0);
    if a is Some {
        a
    } else if b is Some {
        b
    } else if c is Some {
        c
    } else if d is Some {
        d
    } else {
        first_at(RouteStage::LegacyFallback, rules, host, path, 0)
    }
}

/// Whether a route is the one that a rule gives for a path: the path group
/// with the longest prefix where one is for it, else the rule itself.
pub open spec fn route_of_rule(
    route: ResolvedHttpRoute,
    rule: HttpUpstreamRuleConfig,
    path: Seq<char>,
) -> bool {
    &&& route.rule_name@ == rule.name@
    &&& {
        let group = match rule.match_rule {
            HttpUpstreamMatchRule::Host { path_groups } => best_group(
                path_groups@,
                path,
                path_groups@.len() as int,
            ),
            _ => None,
        };
        match group {
            Some(g) => {
                let chosen = rule.match_rule->path_groups@[g];
                &&& *route.upstream == chosen.upstream
                &&& route.rewrite_mode == chosen.rewrite_mode
                &&& opt_str(route.matched_prefix) == Some(chosen.prefix@)
            },
            None => {
                &&& *route.upstream == rule.upstream
                &&& route.rewrite_mode is Preserve
                &&& route.matched_prefix is None
            },
        }
    }
}

fn matches_at(
    stage: &RouteStage,
    rule: &HttpUpstreamRuleConfig,
    host: Option<&str>,
    path: &str,
) -> (r: bool)
    ensures
        r == stage_matches(*stage, *rule, opt_str(host), path@),
{
    if !rule.enable {
        return false;
    }
    match stage {
        RouteStage::HostExact | RouteStage::HostWildcard => {
            let wildcard: bool = match stage {
                RouteStage::HostWildcard => true,
                _ => false,
            };
            match (host, &rule.match_rule) {
                (Some(h), HttpUpstreamMatchRule::Host { .. }) => domain_matches(
                    &rule.domains,
                    h,
                    wildcard,
                ),
                _ => false,
            }
        },
        RouteStage::LegacyExact | RouteStage::LegacyWildcard => {
            let wildcard: bool = match stage {
                RouteStage::LegacyWildcard => true,
                _ => false,
            };
            match (host, &rule.match_rule) {
                (Some(h), HttpUpstreamMatchRule::LegacyPathPrefix { prefix }) => domain_matches(
                    &rule.domains,
                    h,
                    wildcard,
                ) && path_matches_prefix(path, prefix),
                _ => false,
            }
        },
        RouteStage::LegacyFallback => match &rule.match_rule {
            HttpUpstreamMatchRule::LegacyPathPrefix { prefix } => rule.domains.len() == 0
                && path_matches_prefix(path, prefix),
            _ => false,
        },
    }
}

fn find_at(
    stage: RouteStage,
    rules: &Vec<HttpUpstreamRuleConfig>,
    host: Option<&str>,
    path: &str,
) -> (r: Option<usize>)
    ensures
        match first_at(stage, rules@, opt_str(host), path@, 0) {
            Some(i) => r is Some && r->0 == i && 0 <= i < rules@.len(),
            None => r is None,
        },
{
    let n: usize = rules.len();
    for i in 0..n
        invariant
            n == rules@.len(),
            first_at(stage, rules@, opt_str(host), path@, 0) == first_at(
                stage,
                rules@,
                opt_str(host),
                path@,
                i as int,
            ),
    {
        if matches_at(&stage, &rules[i], host, path) {
            return Some(i);
        }
    }
    None
}

fn find_rule(rules: &Vec<HttpUpstreamRuleConfig>, host: Option<&str>, path: &str) -> (r: Option<
    usize,
>)
    ensures
        match rule_for(rules@, opt_str(host), path@) {
            Some(i) => r is Some && r->0 == i && 0 <= i < rules@.len(),
            None => r is None,
        },
{
    let exact = find_at(RouteStage::HostExact, rules, host, path);
    if exact.is_some() {
        return exact;
    }
    let wildcard = find_at(RouteStage::HostWildcard, rules, host, path);
    if wildcard.is_some() {
        return wildcard;
    }
    let legacy = find_at(RouteStage::LegacyExact, rules, host, path);
    if legacy.is_some() {
        return legacy;
    }
    let legacy_wildcard = find_at(RouteStage::LegacyWildcard, rules, host, path);
    if legacy_wildcard.is_some() {
        return legacy_wildcard;
    }
    find_at(RouteStage::LegacyFallback, rules, host, path)
}

fn resolve_route<'a>(rule: &'a HttpUpstreamRuleConfig, path: &str) -> (r: ResolvedHttpRoute<'a>)
    ensures
        route_of_rule(r, *rule, path@),
{
    if let HttpUpstreamMatchRule::Host { path_groups } = &rule.match_rule {
        if let Some(group) = match_path_group(path_groups, path) {
            return ResolvedHttpRoute {
                rule_name: rule.name.as_str(),
                upstream: &group.upstream,
                rewrite_mode: group.rewrite_mode,
                matched_prefix: Some(group.prefix.as_str()),
            };
        }
    }
    ResolvedHttpRoute {
        rule_name: rule.name.as_str(),
        upstream: &rule.upstream,
        rewrite_mode: PathRewriteMode::Preserve,
        matched_prefix: None,
    }
}

pub fn match_http_route<'a>(
    rules: &'a Vec<HttpUpstreamRuleConfig>,
    host: Option<&str>,
    path: &str,
) -> (r: Option<ResolvedHttpRoute<'a>>)
    ensures
        match rule_for(rules@, opt_str(host), path@) {
            Some(i) => r is Some && 0 <= i < rules@.len() && route_of_rule(
                r->0,
                rules@[i],
                path@,
            ),
            None => r is None,
        },
{
    match find_rule(rules, host, path) {
        Some(i) => Some(resolve_route(&rules[i], path)),
        None => None,
    }
}

/// The path and query of a request, or its path where its URI has no such part.
pub open spec fn request_target(request: RequestHeader) -> Seq<char> {
    match request_path_and_query(request) {
        Some(target) => target,
        None => request_path(request),
    }
}

/// The path and query of a request, or its path where its URI has no such part.
pub(crate) fn target_of_request(request: &RequestHeader) -> (r: String)
    ensures
        r@ == request_target(*request),
{
    match path_and_query_of_request(request) {
        Some(target) => target,
        None => path_of_request(request),
    }
}

/// The host that a request is for, in lower case: from its host header without
/// the port, else from its target.
pub open spec fn host_of(header: Option<Seq<char>>, authority: Option<Seq<char>>) -> Option<
    Seq<char>,
> {
    match (header, authority) {
        (Some(h), _) => Some(lower(split_on(h, ':')[0])),
        (None, Some(a)) => Some(lower(a)),
        (None, None) => None,
    }
}

/// The host that a request is for, from its host header, where that is text,
/// and from the authority of its target.
pub fn host_from(header: Option<&str>, authority: Option<&str>) -> (r: Option<String>)
    ensures
        opt_text(r) == host_of(opt_str(header), opt_str(authority)),
{
    match (header, authority) {
        (Some(h), _) => {
            let parts = split(h, ':');
            assert(texts(parts@)[0] == parts@[0]@);
            Some(to_lower(&parts[0]))
        },
        (None, Some(a)) => Some(to_lower(a)),
        (None, None) => None,
    }
}

/// The host that a request is for.
pub fn extract_host(request: &RequestHeader) -> (r: Option<String>)
    ensures
        opt_text(r) == host_of(
            field_text(request_fields(*request), "host"@),
            request_authority(*request),
        ),
{
    let header = host_field_of_request(request);
    let authority = authority_of_request(request);
    let header_str = match &header {
        Some(h) => Some(h.as_str()),
        None => None,
    };
    let authority_str = match &authority {
        Some(a) => Some(a.as_str()),
        None => None,
    };
    host_from(header_str, authority_str)
}

proof fn lemma_first_at(
    stage: RouteStage,
    rules: Seq<HttpUpstreamRuleConfig>,
    host: Option<Seq<char>>,
    path: Seq<char>,
    i: int,
)
    requires
        0 <= i,
    ensures
        match first_at(stage, rules, host, path, i) {
            Some(k) => i <= k < rules.len() && stage_matches(stage, rules[k], host, path)
                && forall|j: int|
                i <= j < k ==> !stage_matches(stage, #[trigger] rules[j], host, path),
            None => forall|j: int|
                i <= j < rules.len() ==> !stage_matches(stage, #[trigger] rules[j], host, path),
        },
    decreases rules.len() - i,
{
    if i < rules.len() && !stage_matches(stage, rules[i], host, path) {
        lemma_first_at(stage, rules, host, path, i + 1);
    }
}

/// A rule that names the host goes before every rule that covers it by a
/// wildcard, wherever they stand.
pub proof fn law_exact_host_first(
    rules: Seq<HttpUpstreamRuleConfig>,
    host: Seq<char>,
    path: Seq<char>,
    i: int,
)
    requires
        0 <= i < rules.len(),
        host_rule_matches(rules[i], host, false),
    ensures
        rule_for(rules, Some(host), path) is Some,
        host_rule_matches(rules[rule_for(rules, Some(host), path)->0], host, false),
        rule_for(rules, Some(host), path)->0 <= i,
{
    lemma_first_at(RouteStage::HostExact, rules, Some(host), path, 0);
    assert(stage_matches(RouteStage::HostExact, rules[i], Some(host), path));
}

/// A request goes only to rules that are enabled.
pub proof fn law_only_enabled_rules(
    rules: Seq<HttpUpstreamRuleConfig>,
    host: Option<Seq<char>>,
    path: Seq<char>,
)
    requires
        rule_for(rules, host, path) is Some,
    ensures
        0 <= rule_for(rules, host, path)->0 < rules.len(),
        rules[rule_for(rules, host, path)->0].enable,
        !(rules[rule_for(rules, host, path)->0].match_rule is SniProxy),
{
    lemma_first_at(RouteStage::HostExact, rules, host, path, 0);
    lemma_first_at(RouteStage::HostWildcard, rules, host, path, 0);
    lemma_first_at(RouteStage::LegacyExact, rules, host, path, 0);
    lemma_first_at(RouteStage::LegacyWildcard, rules, host, path, 0);
    lemma_first_at(RouteStage::LegacyFallback, rules, host, path, 0);
}

/// The chosen path group is one that the path lies under, and none that it
/// lies under has a longer prefix.
pub proof fn law_longest_prefix_wins(
    groups: Seq<crate::gateway::rules::HttpPathGroup>,
    path: Seq<char>,
    n: int,
    other: int,
)
    requires
        0 <= other < n <= groups.len(),
        under_prefix(path, clean_prefix(groups[other].prefix@)),
    ensures
        best_group(groups, path, n) is Some,
        0 <= best_group(groups, path, n)->0 < n,
        under_prefix(path, clean_prefix(groups[best_group(groups, path, n)->0].prefix@)),
        crate::gateway::path::prefix_weight(groups[other].prefix@)
            <= crate::gateway::path::prefix_weight(
            groups[best_group(groups, path, n)->0].prefix@,
        ),
    decreases n,
{
    lemma_best_group_in_bounds(groups, path, n - 1);
    if other < n - 1 {
        law_longest_prefix_wins(groups, path, n - 1, other);
    }
}

proof fn lemma_best_group_in_bounds(
    groups: Seq<crate::gateway::rules::HttpPathGroup>,
    path: Seq<char>,
    n: int,
)
    requires
        n <= groups.len(),
    ensures
        best_group(groups, path, n) matches Some(b) ==> 0 <= b < n && under_prefix(
            path,
            clean_prefix(groups[b].prefix@),
        ),
    decreases n,
{
    if n > 0 {
        lemma_best_group_in_bounds(groups, path, n - 1);
    }
}

/// How good a rule is for a request. Rules for hosts come first, by a domain
/// that is the host and then by a wildcard; then rules by path, by a domain,
/// by a wildcard, and without domains. Disabled rules are for no request.
pub open spec fn route_rank(
    rule: HttpUpstreamRuleConfig,
    host: Option<Seq<char>>,
    path: Seq<char>,
) -> int {
    let exact = host is Some && any_domain_matches(rule.domains@, host->0, false);
    let wildcard = host is Some && any_domain_matches(rule.domains@, host->0, true);
    if !rule.enable {
        5
    } else {
        match rule.match_rule {
            HttpUpstreamMatchRule::Host { .. } => if exact {
                0
            } else if wildcard {
                1
            } else {
                5
            },
            HttpUpstreamMatchRule::LegacyPathPrefix { prefix } => if !under_prefix(
                path,
                clean_prefix(prefix@),
            ) {
                5
            } else if exact {
                2
            } else if wildcard {
                3
            } else if rule.domains@.len() == 0 {
                4
            } else {
                5
            },
            HttpUpstreamMatchRule::SniProxy => 5,
        }
    }
}

/// A request falls under the first of the best rules for it, and under none
/// only where no rule is for it.
pub proof fn law_best_rule_is_taken(
    rules: Seq<HttpUpstreamRuleConfig>,
    host: Option<Seq<char>>,
    path: Seq<char>,
)
    ensures
        match rule_for(rules, host, path) {
            Some(i) => {
                &&& 0 <= i < rules.len()
                &&& route_rank(rules[i], host, path) < 5
                &&& forall|j: int|
                    0 <= j < rules.len() ==> route_rank(rules[i], host, path) <= route_rank(
                        #[trigger] rules[j],
                        host,
                        path,
                    )
                &&& forall|j: int|
                    0 <= j < i ==> route_rank(rules[i], host, path) < route_rank(
                        #[trigger] rules[j],
                        host,
                        path,
                    )
            },
            None => forall|j: int|
                0 <= j < rules.len() ==> route_rank(#[trigger] rules[j], host, path) == 5,
        },
{
    lemma_first_at(RouteStage::HostExact, rules, host, path, 0);
    lemma_first_at(RouteStage::HostWildcard, rules, host, path, 0);
    lemma_first_at(RouteStage::LegacyExact, rules, host, path, 0);
    lemma_first_at(RouteStage::LegacyWildcard, rules, host, path, 0);
    lemma_first_at(RouteStage::LegacyFallback, rules, host, path, 0);
    assert forall|j: int| 0 <= j < rules.len() implies ({
        let r = route_rank(#[trigger] rules[j], host, path);
        &&& r == 0 <==> stage_matches(RouteStage::HostExact, rules[j], host, path)
        &&& r == 1 ==> stage_matches(RouteStage::HostWildcard, rules[j], host, path)
        &&& stage_matches(RouteStage::HostWildcard, rules[j], host, path) ==> r <= 1
        &&& r == 2 <==> stage_matches(RouteStage::LegacyExact, rules[j], host, path)
        &&& r == 3 ==> stage_matches(RouteStage::LegacyWildcard, rules[j], host, path)
        &&& stage_matches(RouteStage::LegacyWildcard, rules[j], host, path) ==> 2 <= r <= 3
        &&& r == 4 ==> stage_matches(RouteStage::LegacyFallback, rules[j], host, path)
        &&& stage_matches(RouteStage::LegacyFallback, rules[j], host, path) ==> 2 <= r <= 4
    }) by {}
}

/// A group whose prefix the path lies under is the route, with its targets, its
/// rewriting and its prefix, where every other such group has a shorter prefix
/// or, of one with a prefix as long, stands in front of it.
pub proof fn law_route_is_of_longest_group(
    route: ResolvedHttpRoute,
    rule: HttpUpstreamRuleConfig,
    path: Seq<char>,
    g: int,
)
    requires
        route_of_rule(route, rule, path),
        rule.match_rule is Host,
        0 <= g < rule.match_rule->path_groups@.len(),
        under_prefix(path, clean_prefix(rule.match_rule->path_groups@[g].prefix@)),
        forall|k: int|
            0 <= k < rule.match_rule->path_groups@.len() && k != g && under_prefix(
                path,
                clean_prefix((#[trigger] rule.match_rule->path_groups@[k]).prefix@),
            ) ==> {
                let own = encode_utf8(clean_prefix(rule.match_rule->path_groups@[g].prefix@)).len();
                let other = encode_utf8(
                    clean_prefix(rule.match_rule->path_groups@[k].prefix@),
                ).len();
                other < own || (other == own && k < g)
            },
    ensures
        route.rule_name@ == rule.name@,
        *route.upstream == rule.match_rule->path_groups@[g].upstream,
        route.rewrite_mode == rule.match_rule->path_groups@[g].rewrite_mode,
        route.matched_prefix matches Some(p) && p@ == rule.match_rule->path_groups@[g].prefix@,
{
    let groups = rule.match_rule->path_groups@;
    let n = groups.len() as int;
    law_longest_prefix_wins(groups, path, n, g);
    lemma_last_of_longest(groups, path, n, g);
}

pub(crate) proof fn lemma_last_of_longest(
    groups: Seq<crate::gateway::rules::HttpPathGroup>,
    path: Seq<char>,
    n: int,
    g: int,
)
    requires
        0 <= g < n <= groups.len(),
        under_prefix(path, clean_prefix(groups[g].prefix@)),
    ensures
        best_group(groups, path, n) matches Some(b) && (b == g
            || crate::gateway::path::prefix_weight(groups[b].prefix@)
            > crate::gateway::path::prefix_weight(groups[g].prefix@) || (b > g
            && crate::gateway::path::prefix_weight(groups[b].prefix@)
            >= crate::gateway::path::prefix_weight(groups[g].prefix@))),
    decreases n,
{
    lemma_best_group_in_bounds(groups, path, n - 1);
    if g < n - 1 {
        lemma_last_of_longest(groups, path, n - 1, g);
    }
}

/// Where the path lies under the prefix of no group, or the rule has none, the
/// route is the rule's own and the path stays.
pub proof fn law_route_without_group(
    route: ResolvedHttpRoute,
    rule: HttpUpstreamRuleConfig,
    path: Seq<char>,
)
    requires
        route_of_rule(route, rule, path),
        rule.match_rule matches HttpUpstreamMatchRule::Host { path_groups } ==> forall|k: int|
            0 <= k < path_groups@.len() ==> !under_prefix(
                path,
                clean_prefix((#[trigger] path_groups@[k]).prefix@),
            ),
    ensures
        route.rule_name@ == rule.name@,
        *route.upstream == rule.upstream,
        route.rewrite_mode == PathRewriteMode::Preserve,
        route.matched_prefix is None,
{
    if let HttpUpstreamMatchRule::Host { path_groups } = rule.match_rule {
        lemma_best_group_in_bounds(path_groups@, path, path_groups@.len() as int);
    }
}

/// The host is what stands in front of the first colon of the host header, in
/// lower case; without a header it is that of the target.
pub proof fn law_host_is_before_the_port(
    host: Seq<char>,
    port: Seq<char>,
    authority: Option<Seq<char>>,
)
    requires
        !host.contains(':'),
    ensures
        host_of(Some(host), authority) == Some(lower(host)),
        host_of(Some(host + seq![':'] + port), authority) == Some(lower(host)),
        host_of(None, Some(host)) == Some(lower(host)),
        host_of(None, None) is None,
{
    lemma_first_piece(host, Seq::empty(), false);
    assert(host + Seq::<char>::empty() =~= host);
    lemma_first_piece(host, port, true);
}

proof fn lemma_first_piece(host: Seq<char>, rest: Seq<char>, colon: bool)
    requires
        !host.contains(':'),
        !colon ==> rest.len() == 0,
    ensures
        ({
            let s = if colon {
                host + seq![':'] + rest
            } else {
                host
            };
            &&& split_on(s, ':').len() >= 1
            &&& split_on(s, ':')[0] == host
            &&& split_on(s, ':').len() == 1 <==> !colon
        }),
    decreases host.len() + rest.len(), if colon {
        1int
    } else {
        0int
    },
{
    if !colon {
        if host.len() > 0 {
            let less = host.drop_last();
            assert forall|k: int| 0 <= k < less.len() implies less[k] != ':' by {
                assert(host[k] == less[k]);
                assert(host.contains(host[k]));
            }
            assert(host.contains(host.last()));
            lemma_first_piece(less, rest, false);
            assert(less.push(host.last()) =~= host);
        } else {
            assert(split_on(host, ':')[0] =~= host);
        }
    } else {
        let s = host + seq![':'] + rest;
        if rest.len() == 0 {
            assert(s.drop_last() =~= host);
            assert(s.last() == ':');
            lemma_first_piece(host, rest, false);
        } else {
            let less = rest.drop_last();
            assert(s.drop_last() =~= host + seq![':'] + less);
            lemma_first_piece(host, less, true);
        }
    }
}

} // verus!

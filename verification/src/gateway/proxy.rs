//! The reverse proxy: what is decided for each request.
use pingora_http::RequestHeader;
use vstd::prelude::*;
use vstd::utf8::encode_utf8;
use crate::gateway::balance::{
    can_choose, chosen, fnv1a, law_consistent_choice_by_share, lemma_chosen_in_bounds, next_turn,
    select_target, total_weight, weights_fit,
};
use crate::gateway::failure::{
    classify_proxy_error, is_trailing_slash_redirect_error, no_upstream_targets_error,
    path_rewrite_failed_error, response_to, route_not_matched_error,
    trailing_slash_redirect_error, ErrorKind, ErrorSource, GatewayErrorResponse, ProxyError,
    ResponseText,
};
use crate::gateway::fields::{
    after_changes, allowed_until, few_names, field_name, field_text, field_value, values_under,
    Fields,
};
use crate::gateway::headers::{
    apply_client_ip_headers, apply_configured_headers, client_ip_changes, configured_changes,
    header_refused, headers_named, law_configured_headers_of_a_name,
    law_headers_up_to_the_first_refused, lemma_client_ip_changes,
};
use crate::gateway::outside::{
    accepted_target, path_of_request, request_authority, request_fields, request_path,
    set_request_target,
};
use crate::gateway::path::{
    apply_path_rewrite, best_group, clean_prefix, redirect_location,
    trailing_slash_redirect_location, under_prefix, upstream_target,
};
use crate::gateway::route::{
    extract_host, host_of, law_longest_prefix_wins, lemma_last_of_longest, match_http_route, request_target, route_of_rule, rule_for,
    target_of_request, ResolvedHttpRoute,
};
use crate::gateway::rules::{
    ClientIpHeaderPolicy, HttpUpstreamConfig, HttpUpstreamMatchRule, HttpUpstreamRuleConfig,
    HttpUpstreamTarget, LoadBalanceMethod, PathRewriteMode, ProxyHeaderConflictMode, ProxyRequestHeader,
};
use crate::net::IpAddr;
use crate::text::{decimal, decimal_text, flag_str, flag_text, lower, opt_str, opt_text};

verus! {

/// The rules in force, and whose turn it is.
pub struct LandscapeReverseProxy {
    rules: Vec<HttpUpstreamRuleConfig>,
    round_robin_counter: usize,
}

/// What of a route is kept until the request is sent on.
#[derive(Debug)]
pub struct MatchedHttpRoute {
    pub request_headers: Vec<ProxyRequestHeader>,
    pub header_conflict_mode: ProxyHeaderConflictMode,
    pub client_ip_headers: ClientIpHeaderPolicy,
    pub rewrite_mode: PathRewriteMode,
    pub matched_prefix: Option<String>,
}

/// The target that a request was sent to.
#[derive(Debug, PartialEq, Eq)]
pub struct SelectedTarget {
    pub address: String,
    pub port: u16,
    pub tls: bool,
    pub skip_cert_verify: bool,
}

/// How the upstream is connected to.
#[derive(Debug, PartialEq, Eq)]
pub struct PeerSpec {
    pub address: String,
    pub port: u16,
    pub tls: bool,
    /// The name that the upstream's certificate is for.
    pub sni: String,
    pub verify_cert: bool,
    pub verify_hostname: bool,
    pub connection_timeout_secs: u64,
}

/// What is known of one request.
#[derive(Debug)]
pub struct ProxyCtx {
    pub matched_rule_name: Option<String>,
    pub request_host: Option<String>,
    pub request_path: Option<String>,
    pub rewritten_path: Option<String>,
    pub redirect_location: Option<String>,
    pub selected_target: Option<SelectedTarget>,
    pub matched_route: Option<MatchedHttpRoute>,
}

/// Whether a record of the target is that of the given one.
pub open spec fn selected_from(selected: SelectedTarget, target: HttpUpstreamTarget) -> bool {
    &&& selected.address@ == target.address@
    &&& selected.port == target.port
    &&& selected.tls == target.tls
    &&& selected.skip_cert_verify == target.skip_cert_verify
}

impl SelectedTarget {
    pub fn from_target(target: &HttpUpstreamTarget) -> (r: Self)
        ensures
            selected_from(r, *target),
    {
        SelectedTarget {
            address: target.address.clone(),
            port: target.port,
            tls: target.tls,
            skip_cert_verify: target.skip_cert_verify,
        }
    }

    pub fn display(&self) -> (r: String)
        ensures
            r@ == self.address@ + ":"@ + decimal(self.port as nat) + " tls="@ + flag_text(self.tls)
                + " skip_cert_verify="@ + flag_text(self.skip_cert_verify),
    {
        self.address.clone().concat(":").concat(&decimal_text(self.port as u128)).concat(
            " tls=",
        ).concat(flag_str(self.tls)).concat(" skip_cert_verify=").concat(
            flag_str(self.skip_cert_verify),
        )
    }
}

/// Whether a connection is the one to a target: a certificate is checked
/// unless the target says not to.
pub open spec fn peer_for(peer: PeerSpec, target: HttpUpstreamTarget) -> bool {
    let unchecked = target.tls && target.skip_cert_verify;
    &&& peer.address@ == target.address@
    &&& peer.port == target.port
    &&& peer.tls == target.tls
    &&& peer.sni@ == target.address@
    &&& peer.verify_cert == !unchecked
    &&& peer.verify_hostname == !unchecked
    &&& peer.connection_timeout_secs == 10
}

/// The target of an upstream for a request, and how it is connected to.
pub fn make_peer(
    upstream: &HttpUpstreamConfig,
    counter: &mut usize,
    host: &str,
    path: &str,
) -> (r: Result<(PeerSpec, SelectedTarget), ProxyError>)
    requires
        weights_fit(upstream.targets@, upstream.load_balance),
    ensures
        match r {
            Ok((peer, selected)) => {
                let i = chosen(
                    upstream.targets@,
                    upstream.load_balance,
                    *old(counter),
                    encode_utf8(host@) + encode_utf8(path@),
                    encode_utf8(host@),
                );
                &&& upstream.targets@.len() > 0
                &&& 0 <= i < upstream.targets@.len()
                &&& peer_for(peer, upstream.targets@[i])
                &&& selected_from(selected, upstream.targets@[i])
            },
            Err(e) => upstream.targets@.len() == 0 && e.kind is NoUpstreamTargets
                && e.source is Internal,
        },
        *final(counter) == next_turn(upstream.targets@, upstream.load_balance, *old(counter)),
{
    if upstream.targets.len() == 0 {
        return Err(no_upstream_targets_error());
    }
    let at: usize = select_target(&upstream.targets, upstream.load_balance, counter, host, path);
    let target = &upstream.targets[at];
    let unchecked: bool = target.tls && target.skip_cert_verify;
    let peer = PeerSpec {
        address: target.address.clone(),
        port: target.port,
        tls: target.tls,
        sni: target.address.clone(),
        verify_cert: !unchecked,
        verify_hostname: !unchecked,
        connection_timeout_secs: 10,
    };
    Ok((peer, SelectedTarget::from_target(target)))
}

/// The upstream that a rule gives for a path.
pub open spec fn upstream_of_rule(rule: HttpUpstreamRuleConfig, path: Seq<char>) -> HttpUpstreamConfig {
    match rule.match_rule {
        HttpUpstreamMatchRule::Host { path_groups } => match best_group(
            path_groups@,
            path,
            path_groups@.len() as int,
        ) {
            Some(g) => path_groups@[g].upstream,
            None => rule.upstream,
        },
        _ => rule.upstream,
    }
}

/// The prefix that a rule gives for a path.
pub open spec fn prefix_of_rule(rule: HttpUpstreamRuleConfig, path: Seq<char>) -> Option<Seq<char>> {
    match rule.match_rule {
        HttpUpstreamMatchRule::Host { path_groups } => match best_group(
            path_groups@,
            path,
            path_groups@.len() as int,
        ) {
            Some(g) => Some(path_groups@[g].prefix@),
            None => None,
        },
        _ => None,
    }
}

/// What of a rule is kept until the request is sent on.
pub open spec fn kept_route(
    route: MatchedHttpRoute,
    rule: HttpUpstreamRuleConfig,
    path: Seq<char>,
) -> bool {
    let upstream = upstream_of_rule(rule, path);
    &&& route.request_headers@ == upstream.request_headers@
    &&& route.header_conflict_mode == upstream.header_conflict_mode
    &&& route.client_ip_headers == upstream.client_ip_headers
    &&& opt_text(route.matched_prefix) == prefix_of_rule(rule, path)
    &&& route.matched_prefix is None ==> route.rewrite_mode is Preserve
    &&& rule.match_rule matches HttpUpstreamMatchRule::Host { path_groups } ==> (best_group(
        path_groups@,
        path,
        path_groups@.len() as int,
    ) matches Some(g) ==> route.rewrite_mode == path_groups@[g].rewrite_mode)
}

fn keep_route(route: &ResolvedHttpRoute, Ghost(rule): Ghost<HttpUpstreamRuleConfig>, Ghost(
    path,
): Ghost<Seq<char>>) -> (r: MatchedHttpRoute)
    requires
        route_of_rule(*route, rule, path),
    ensures
        kept_route(r, rule, path),
{
    let request_headers = route.upstream.request_headers.clone();
    assert(request_headers@ =~= route.upstream.request_headers@);
    let matched_prefix = match route.matched_prefix {
        Some(p) => Some(p.to_owned()),
        None => None,
    };
    MatchedHttpRoute {
        request_headers,
        header_conflict_mode: route.upstream.header_conflict_mode,
        client_ip_headers: route.upstream.client_ip_headers,
        rewrite_mode: route.rewrite_mode,
        matched_prefix,
    }
}

/// Whether a target can be chosen for a request with the given host, path, and
/// path and query, where one is needed.
pub open spec fn can_choose_for(
    rules: Seq<HttpUpstreamRuleConfig>,
    host: Option<Seq<char>>,
    path: Seq<char>,
    path_and_query: Seq<char>,
) -> bool {
    match rule_for(rules, host, path) {
        None => true,
        Some(i) => {
            ||| redirect_location(path_and_query, prefix_of_rule(rules[i], path)) is Some
            ||| weights_fit(
                upstream_of_rule(rules[i], path).targets@,
                upstream_of_rule(rules[i], path).load_balance,
            )
        },
    }
}

/// What is decided for a request with the given host, path, and path and
/// query; `turns` and `ctxs` are the turn and what is known before and after.
pub open spec fn peer_chosen(
    rules: Seq<HttpUpstreamRuleConfig>,
    turns: (usize, usize),
    ctxs: (ProxyCtx, ProxyCtx),
    asked: (Option<Seq<char>>, Seq<char>, Seq<char>),
    r: Result<PeerSpec, ProxyError>,
) -> bool {
    let (host, path, path_and_query) = asked;
    let (before, after) = ctxs;
    &&& opt_text(after.request_host) == host
    &&& opt_text(after.request_path) == Some(path_and_query)
    &&& after.rewritten_path is None
    &&& match rule_for(rules, host, path) {
        None => {
            &&& r matches Err(e) && e.kind is RouteNotMatched && e.source is Internal
            &&& turns.1 == turns.0
            &&& after.redirect_location is None
            &&& after.selected_target is None
            &&& after.matched_rule_name == before.matched_rule_name
            &&& after.matched_route == before.matched_route
        },
        Some(i) => {
            let rule = rules[i];
            let upstream = upstream_of_rule(rule, path);
            let location = redirect_location(path_and_query, prefix_of_rule(rule, path));
            let host_text = match host {
                Some(h) => h,
                None => Seq::empty(),
            };
            &&& opt_text(after.matched_rule_name) == Some(rule.name@)
            &&& after.matched_route matches Some(kept) && kept_route(kept, rule, path)
            &&& opt_text(after.redirect_location) == location
            &&& if location is Some {
                &&& r matches Err(e) && e.kind is TrailingSlashRedirect && e.source is Internal
                &&& turns.1 == turns.0
                &&& after.selected_target is None
            } else {
                &&& turns.1 == next_turn(upstream.targets@, upstream.load_balance, turns.0)
                &&& if upstream.targets@.len() == 0 {
                    &&& r matches Err(e) && e.kind is NoUpstreamTargets && e.source is Internal
                    &&& after.selected_target is None
                } else {
                    let at = chosen(
                        upstream.targets@,
                        upstream.load_balance,
                        turns.0,
                        encode_utf8(host_text) + encode_utf8(path),
                        encode_utf8(host_text),
                    );
                    &&& r matches Ok(peer) && peer_for(peer, upstream.targets@[at])
                    &&& after.selected_target matches Some(t) && selected_from(
                        t,
                        upstream.targets@[at],
                    )
                }
            }
        },
    }
}

/// The host that a request is for.
pub open spec fn host_of_request(request: RequestHeader) -> Option<Seq<char>> {
    host_of(field_text(request_fields(request), "host"@), request_authority(request))
}

impl LandscapeReverseProxy {
    pub closed spec fn rules(&self) -> Seq<HttpUpstreamRuleConfig> {
        self.rules@
    }

    /// Whose turn it is.
    pub closed spec fn turn(&self) -> usize {
        self.round_robin_counter
    }

    pub fn new(rules: Vec<HttpUpstreamRuleConfig>) -> (r: Self)
        ensures
            r.rules() == rules@,
            r.turn() == 0,
    {
        LandscapeReverseProxy { rules, round_robin_counter: 0 }
    }

    /// Puts other rules in force; the turns go on.
    pub fn replace_rules(&mut self, rules: Vec<HttpUpstreamRuleConfig>)
        ensures
            final(self).rules() == rules@,
            final(self).turn() == old(self).turn(),
    {
        self.rules = rules;
    }

    /// Nothing known yet.
    pub fn new_ctx(&self) -> (r: ProxyCtx)
        ensures
            r.matched_rule_name is None,
            r.request_host is None,
            r.request_path is None,
            r.rewritten_path is None,
            r.redirect_location is None,
            r.selected_target is None,
            r.matched_route is None,
    {
        ProxyCtx {
            matched_rule_name: None,
            request_host: None,
            request_path: None,
            rewritten_path: None,
            redirect_location: None,
            selected_target: None,
            matched_route: None,
        }
    }

    /// Decides where a request for the given host, path and query goes: which
    /// rule it falls under, whether the client is sent to the path with a
    /// slash behind it, and which target is connected to.
    pub fn choose_peer(
        &mut self,
        ctx: &mut ProxyCtx,
        host: Option<String>,
        path: &str,
        path_and_query: &str,
    ) -> (r: Result<PeerSpec, ProxyError>)
        requires
            can_choose_for(old(self).rules(), opt_text(host), path@, path_and_query@),
        ensures
            final(self).rules() == old(self).rules(),
            peer_chosen(
                old(self).rules(),
                (old(self).turn(), final(self).turn()),
                (*old(ctx), *final(ctx)),
                (opt_text(host), path@, path_and_query@),
                r,
            ),
    {
        proof {
            reveal_strlit("");
            assert(""@ =~= Seq::<char>::empty());
        }
        let host_view = match &host {
            Some(h) => Some(h.as_str()),
            None => None,
        };
        let host_str = match host_view {
            Some(h) => h,
            None => "",
        };
        let route = match_http_route(&self.rules, host_view, path);
        ctx.request_path = Some(path_and_query.to_owned());
        ctx.rewritten_path = None;
        ctx.redirect_location = None;
        ctx.selected_target = None;
        let found = match route {
            Some(found) => found,
            None => {
                ctx.request_host = host;
                return Err(route_not_matched_error());
            },
        };
        let ghost at_rule = rule_for(old(self).rules(), opt_text(host), path@)->0;
        let ghost rule = old(self).rules()[at_rule];
        ctx.matched_rule_name = Some(found.rule_name.to_owned());
        ctx.matched_route = Some(keep_route(&found, Ghost(rule), Ghost(path@)));
        assert(*found.upstream == upstream_of_rule(rule, path@));
        assert(opt_str(found.matched_prefix) == prefix_of_rule(rule, path@));
        let location = trailing_slash_redirect_location(path_and_query, found.matched_prefix);
        if location.is_some() {
            ctx.redirect_location = location;
            ctx.request_host = host;
            return Err(trailing_slash_redirect_error());
        }
        let mut turn: usize = self.round_robin_counter;
        let made = make_peer(found.upstream, &mut turn, host_str, path);
        self.round_robin_counter = turn;
        ctx.request_host = host;
        match made {
            Ok((peer, selected)) => {
                ctx.selected_target = Some(selected);
                Ok(peer)
            },
            Err(e) => Err(e),
        }
    }

    /// Decides where a request goes.
    pub fn upstream_peer(&mut self, ctx: &mut ProxyCtx, request: &RequestHeader) -> (r: Result<
        PeerSpec,
        ProxyError,
    >)
        requires
            can_choose_for(
                old(self).rules(),
                host_of_request(*request),
                request_path(*request),
                request_target(*request),
            ),
        ensures
            final(self).rules() == old(self).rules(),
            peer_chosen(
                old(self).rules(),
                (old(self).turn(), final(self).turn()),
                (*old(ctx), *final(ctx)),
                (host_of_request(*request), request_path(*request), request_target(*request)),
                r,
            ),
    {
        let host = extract_host(request);
        let path = path_of_request(request);
        let path_and_query = target_of_request(request);
        self.choose_peer(ctx, host, &path, &path_and_query)
    }

    /// Whether a target can be chosen for a request.
    pub fn can_choose_peer(&self, request: &RequestHeader) -> (r: bool)
        ensures
            r == can_choose_for(
                self.rules(),
                host_of_request(*request),
                request_path(*request),
                request_target(*request),
            ),
    {
        let host = extract_host(request);
        let path = path_of_request(request);
        let path_and_query = target_of_request(request);
        let host_view = match &host {
            Some(h) => Some(h.as_str()),
            None => None,
        };
        match match_http_route(&self.rules, host_view, &path) {
            None => true,
            Some(found) => {
                trailing_slash_redirect_location(&path_and_query, found.matched_prefix).is_some()
                    || can_choose(&found.upstream.targets, found.upstream.load_balance)
            },
        }
    }
}

/// What a request comes to on a route: the failure if there is one, the path
/// and query, and the fields. A path and query that the request does not take
/// ends it before anything changes; the client's address comes before the
/// configured headers, so that these can replace it.
pub open spec fn sent_on(
    route: MatchedHttpRoute,
    target: Seq<char>,
    fields: Fields,
    client_ip: Option<IpAddr>,
) -> (Option<ProxyError>, Seq<char>, Fields) {
    let rewritten = upstream_target(target, route.rewrite_mode, opt_text(route.matched_prefix));
    if rewritten is Some && accepted_target(rewritten->0) is None {
        (Some(rewrite_refused()), target, fields)
    } else {
        let first = if route.client_ip_headers is Standard && client_ip is Some {
            after_changes(fields, client_ip_changes(client_ip->0))
        } else {
            fields
        };
        let changes = configured_changes(route.request_headers@, route.header_conflict_mode);
        let n = allowed_until(changes, 0);
        (
            if n == changes.len() {
                None
            } else {
                Some(header_refused())
            },
            match rewritten {
                Some(t) => accepted_target(t)->0,
                None => target,
            },
            after_changes(first, changes.take(n)),
        )
    }
}

/// The failure of a request that does not take its new path and query.
pub open spec fn rewrite_refused() -> ProxyError {
    ProxyError { kind: ErrorKind::PathRewriteFailed, source: ErrorSource::Internal }
}

/// How many names a route may add to the fields of a request.
pub open spec fn names_added(route: MatchedHttpRoute) -> nat {
    route.request_headers@.len() + 3
}

/// Changes a request before it is sent on; a request without a route is left
/// as it is. Where a request has very many fields, the failure may also be
/// that there is no room for a header.
pub fn upstream_request_filter(
    ctx: &mut ProxyCtx,
    upstream_request: &mut RequestHeader,
    client_ip: Option<IpAddr>,
) -> (r: Result<(), ProxyError>)
    ensures
        match old(ctx).matched_route {
            None => {
                &&& r is Ok
                &&& request_target(*final(upstream_request)) == request_target(
                    *old(upstream_request),
                )
                &&& request_fields(*final(upstream_request)) == request_fields(
                    *old(upstream_request),
                )
                &&& final(ctx).rewritten_path == old(ctx).rewritten_path
            },
            Some(route) => {
                let target = request_target(*old(upstream_request));
                let fields = request_fields(*old(upstream_request));
                let sent = sent_on(route, target, fields, client_ip);
                &&& match r {
                    Ok(_) => sent.0 is None && request_fields(*final(upstream_request)) == sent.2,
                    Err(e) => e == (match sent.0 {
                        Some(failure) => failure,
                        None => header_refused(),
                    }),
                }
                &&& few_names(fields, names_added(route)) || sent.0 == Some(rewrite_refused())
                    ==> (r is Ok <==> sent.0 is None) && request_fields(*final(upstream_request))
                    == sent.2
                &&& request_target(*final(upstream_request)) == sent.1
                &&& opt_text(final(ctx).rewritten_path) == (if sent.0 == Some(rewrite_refused()) {
                    opt_text(old(ctx).rewritten_path)
                } else {
                    upstream_target(target, route.rewrite_mode, opt_text(route.matched_prefix))
                })
            },
        },
        final(ctx).matched_rule_name == old(ctx).matched_rule_name,
        final(ctx).request_host == old(ctx).request_host,
        final(ctx).request_path == old(ctx).request_path,
        final(ctx).redirect_location == old(ctx).redirect_location,
        final(ctx).selected_target == old(ctx).selected_target,
        final(ctx).matched_route == old(ctx).matched_route,
{
    let route = match &ctx.matched_route {
        Some(route) => route,
        None => {
            return Ok(());
        },
    };
    let prefix = match &route.matched_prefix {
        Some(p) => Some(p.as_str()),
        None => None,
    };
    let target = target_of_request(upstream_request);
    let rewritten = apply_path_rewrite(&target, route.rewrite_mode, prefix);
    if let Some(new_target) = &rewritten {
        if !set_request_target(upstream_request, new_target) {
            return Err(path_rewrite_failed_error());
        }
    }
    let ghost fields = request_fields(*upstream_request);
    let ghost changes = configured_changes(route.request_headers@, route.header_conflict_mode);
    assert(changes.take(changes.len() as int) =~= changes);
    let mut r: Result<(), ProxyError> = Ok(());
    if route.client_ip_headers == ClientIpHeaderPolicy::Standard {
        if let Some(ip) = client_ip {
            proof {
                lemma_client_ip_changes(fields, ip, route.request_headers@.len());
            }
            r = apply_client_ip_headers(upstream_request, ip);
        }
    }
    if r.is_ok() {
        r = apply_configured_headers(
            upstream_request,
            &route.request_headers,
            route.header_conflict_mode,
        );
    }
    ctx.rewritten_path = rewritten;
    r
}

/// What is written to the client after a failure.
#[derive(Debug)]
pub enum FailureAnswer {
    /// A redirect to the location.
    Redirect(String),
    /// An error response.
    Error(GatewayErrorResponse),
    /// Nothing.
    Silence,
}

pub enum FailureAnswerView {
    Redirect(Seq<char>),
    Error(ResponseText),
    Silence,
}

impl View for FailureAnswer {
    type V = FailureAnswerView;

    open spec fn view(&self) -> FailureAnswerView {
        match *self {
            FailureAnswer::Redirect(location) => FailureAnswerView::Redirect(location@),
            FailureAnswer::Error(r) => FailureAnswerView::Error(r@),
            FailureAnswer::Silence => FailureAnswerView::Silence,
        }
    }
}

/// What is written to the client after a failure, and the code that is
/// reported: nothing is written to a client that has been answered already.
pub open spec fn failure_answer(
    error: ProxyError,
    location: Option<Seq<char>>,
    response_written: bool,
) -> (FailureAnswerView, u16) {
    if error.kind is TrailingSlashRedirect {
        (
            if !response_written && location is Some {
                FailureAnswerView::Redirect(location->0)
            } else {
                FailureAnswerView::Silence
            },
            308,
        )
    } else {
        let r = response_to(error);
        (
            if r.status_code > 0 && !response_written {
                FailureAnswerView::Error(r)
            } else {
                FailureAnswerView::Silence
            },
            r.status_code,
        )
    }
}

pub fn fail_to_proxy(ctx: &ProxyCtx, error: &ProxyError, response_written: bool) -> (r: (
    FailureAnswer,
    u16,
))
    ensures
        (r.0@, r.1) == failure_answer(
            *error,
            opt_text(ctx.redirect_location),
            response_written,
        ),
{
    if is_trailing_slash_redirect_error(error) {
        if !response_written {
            if let Some(location) = &ctx.redirect_location {
                return (FailureAnswer::Redirect(location.clone()), 308);
            }
        }
        return (FailureAnswer::Silence, 308);
    }
    let classified = classify_proxy_error(error);
    if classified.status_code > 0 && !response_written {
        (FailureAnswer::Error(classified), classified.status_code)
    } else {
        (FailureAnswer::Silence, classified.status_code)
    }
}

/// A request that no rule is for is answered with 404, unless an answer was
/// written already.
pub proof fn law_unmatched_request_is_not_found(error: ProxyError, location: Option<Seq<char>>)
    requires
        error.kind is RouteNotMatched,
    ensures
        failure_answer(error, location, false).1 == 404,
        failure_answer(error, location, false).0 matches FailureAnswerView::Error(r)
            && r.status_code == 404,
{
}

/// Nothing is ever written twice to a client.
pub proof fn law_no_second_answer(error: ProxyError, location: Option<Seq<char>>)
    ensures
        failure_answer(error, location, true).0 is Silence,
{
}

/// Where a rule has no group that a path lies under, it is the rule's own
/// upstream that a request goes to; where it has some, that of the one with
/// the longest prefix, and of several as long the last.
pub proof fn law_upstream_of_longest_group(rule: HttpUpstreamRuleConfig, path: Seq<char>, g: int)
    requires
        rule.match_rule is Host,
        0 <= g < rule.match_rule->path_groups@.len(),
        under_prefix(path, clean_prefix(rule.match_rule->path_groups@[g].prefix@)),
        forall|k: int|
            0 <= k < rule.match_rule->path_groups@.len() && k != g && under_prefix(
                path,
                clean_prefix((#[trigger] rule.match_rule->path_groups@[k]).prefix@),
            ) ==> {
                let own = encode_utf8(clean_prefix(rule.match_rule->path_groups@[g].prefix@)).len();
                let other = encode_utf8(
                    clean_prefix(rule.match_rule->path_groups@[k].prefix@),
                ).len();
                other < own || (other == own && k < g)
            },
    ensures
        upstream_of_rule(rule, path) == rule.match_rule->path_groups@[g].upstream,
        prefix_of_rule(rule, path) == Some(rule.match_rule->path_groups@[g].prefix@),
{
    let groups = rule.match_rule->path_groups@;
    law_longest_prefix_wins(groups, path, groups.len() as int, g);
    lemma_last_of_longest(groups, path, groups.len() as int, g);
}

/// A request that falls under a rule and is not redirected goes to a target of
/// that rule, and is connected to as the target says: a certificate is checked
/// unless the target has TLS and says not to. By weight it is the target into
/// whose share the hash of the host falls, whatever the path; by turns the one
/// whose turn it is.
pub proof fn law_request_goes_to_its_target(
    rules: Seq<HttpUpstreamRuleConfig>,
    turns: (usize, usize),
    ctxs: (ProxyCtx, ProxyCtx),
    asked: (Option<Seq<char>>, Seq<char>, Seq<char>),
    peer: PeerSpec,
    i: int,
)
    requires
        peer_chosen(rules, turns, ctxs, asked, Ok(peer)),
        rule_for(rules, asked.0, asked.1) == Some(i),
    ensures
        ({
            let upstream = upstream_of_rule(rules[i], asked.1);
            let targets = upstream.targets@;
            let host = match asked.0 {
                Some(h) => encode_utf8(h),
                None => encode_utf8(Seq::empty()),
            };
            let point = (fnv1a(host) as int % 0x1_0000_0000) % total_weight(targets);
            exists|at: int|
                0 <= at < targets.len() && {
                    &&& peer.address@ == (#[trigger] targets[at]).address@
                    &&& peer.port == targets[at].port
                    &&& peer.tls == targets[at].tls
                    &&& peer.sni@ == targets[at].address@
                    &&& peer.verify_cert == !(targets[at].tls && targets[at].skip_cert_verify)
                    &&& peer.verify_hostname == peer.verify_cert
                    &&& targets.len() > 1 && upstream.load_balance == LoadBalanceMethod::Consistent
                        && total_weight(targets) > 0 ==> total_weight(targets.take(at)) <= point
                        < total_weight(targets.take(at)) + targets[at].weight
                    &&& targets.len() > 1 && upstream.load_balance == LoadBalanceMethod::RoundRobin
                        ==> at == turns.0 as int % targets.len() as int
                }
        }),
        turns.1 == if upstream_of_rule(rules[i], asked.1).targets@.len() > 1 && upstream_of_rule(
            rules[i],
            asked.1,
        ).load_balance == LoadBalanceMethod::RoundRobin {
            turns.0.wrapping_add(1)
        } else {
            turns.0
        },
{
    let upstream = upstream_of_rule(rules[i], asked.1);
    let targets = upstream.targets@;
    let host = match asked.0 {
        Some(h) => h,
        None => Seq::empty(),
    };
    let request = encode_utf8(host) + encode_utf8(asked.1);
    let at = chosen(targets, upstream.load_balance, turns.0, request, encode_utf8(host));
    lemma_chosen_in_bounds(targets, upstream.load_balance, turns.0, request, encode_utf8(host));
    if targets.len() > 1 && upstream.load_balance == LoadBalanceMethod::Consistent {
        law_consistent_choice_by_share(targets, turns.0, request, encode_utf8(host));
    }
    assert(peer.address@ == targets[at].address@);
}

/// A request that falls under no rule, is redirected or finds no targets is
/// refused, each with its own failure, and takes nobody's turn.
pub proof fn law_refused_requests(
    rules: Seq<HttpUpstreamRuleConfig>,
    turns: (usize, usize),
    ctxs: (ProxyCtx, ProxyCtx),
    asked: (Option<Seq<char>>, Seq<char>, Seq<char>),
    e: ProxyError,
)
    requires
        peer_chosen(rules, turns, ctxs, asked, Err(e)),
    ensures
        turns.1 == turns.0,
        ctxs.1.selected_target is None,
        match rule_for(rules, asked.0, asked.1) {
            None => e.kind == ErrorKind::RouteNotMatched && ctxs.1.redirect_location is None,
            Some(i) => match redirect_location(asked.2, prefix_of_rule(rules[i], asked.1)) {
                Some(location) => e.kind == ErrorKind::TrailingSlashRedirect && (
                ctxs.1.redirect_location matches Some(told) && told@ == location),
                None => e.kind == ErrorKind::NoUpstreamTargets && upstream_of_rule(
                    rules[i],
                    asked.1,
                ).targets@.len() == 0,
            },
        },
{
}

/// What is sent on: where the new path and query are accepted, the fields are
/// those of the request with the client's address told only where the route
/// says so, and then the configured headers up to the first one that cannot
/// be; there is a failure exactly where one cannot be. Where they are not
/// accepted nothing changes.
pub proof fn law_what_is_sent_on(
    route: MatchedHttpRoute,
    target: Seq<char>,
    fields: Fields,
    client_ip: Option<IpAddr>,
    key: Seq<char>,
)
    requires
        forall|k: int|
            0 <= k < route.request_headers@.len() ==> lower(
                (#[trigger] route.request_headers@[k]).name@,
            ) != key,
    ensures
        ({
            let sent = sent_on(route, target, fields, client_ip);
            let asked = upstream_target(target, route.rewrite_mode, opt_text(route.matched_prefix));
            let refused = asked is Some && accepted_target(asked->0) is None;
            &&& refused ==> sent.0 is Some && sent.1 == target && sent.2 == fields
            &&& !refused ==> {
                &&& sent.0 is None <==> forall|k: int|
                    0 <= k < route.request_headers@.len() ==> field_name(
                        (#[trigger] route.request_headers@[k]).name@,
                    ) && field_value(route.request_headers@[k].value@)
                &&& asked is None ==> sent.1 == target
                &&& asked is Some ==> Some(sent.1) == accepted_target(asked->0)
                &&& values_under(sent.2, key) == if route.client_ip_headers
                    == ClientIpHeaderPolicy::Standard && client_ip is Some {
                    values_under(after_changes(fields, client_ip_changes(client_ip->0)), key)
                } else {
                    values_under(fields, key)
                }
            }
        }),
{
    let changes = configured_changes(route.request_headers@, route.header_conflict_mode);
    let n = allowed_until(changes, 0);
    law_headers_up_to_the_first_refused(changes, 0);
    let first = if route.client_ip_headers is Standard && client_ip is Some {
        after_changes(fields, client_ip_changes(client_ip->0))
    } else {
        fields
    };
    let some = route.request_headers@.take(n);
    assert(changes.take(n) =~= configured_changes(some, route.header_conflict_mode));
    law_configured_headers_of_a_name(first, some, key);
    let named = headers_named(some, key);
    if named.len() > 0 {
        let named_so = |h: ProxyRequestHeader| lower(h.name@) == key;
        some.lemma_filter_pred(named_so, 0);
        some.lemma_filter_contains_rev(named_so, named[0]);
        let k = choose|k: int| 0 <= k < some.len() && some[k] == named[0];
        assert(route.request_headers@[k] == named[0]);
    }
    assert(values_under(first, key) + named.map_values(
        |h: ProxyRequestHeader| encode_utf8(h.value@),
    ) =~= values_under(first, key));
    if n < changes.len() {
        assert(changes[n] == crate::gateway::headers::configured_change(
            route.request_headers@[n],
            route.header_conflict_mode,
        ));
    } else {
        assert forall|k: int| 0 <= k < route.request_headers@.len() implies field_name(
            (#[trigger] route.request_headers@[k]).name@,
        ) && field_value(route.request_headers@[k].value@) by {
            assert(changes[k] == crate::gateway::headers::configured_change(
                route.request_headers@[k],
                route.header_conflict_mode,
            ));
        }
    }
}

/// A client that is to be sent elsewhere is sent there, and any other one is
/// told of the failure where it has a status.
pub proof fn law_failures_are_told(error: ProxyError, location: Option<Seq<char>>)
    ensures
        ({
            let told = failure_answer(error, location, false);
            if error.kind == ErrorKind::TrailingSlashRedirect {
                &&& told.1 == 308
                &&& location is Some ==> told.0 == FailureAnswerView::Redirect(location->0)
                &&& location is None ==> told.0 == FailureAnswerView::Silence
            } else {
                let response = response_to(error);
                &&& told.1 == response.status_code
                &&& response.status_code == 0 ==> told.0 == FailureAnswerView::Silence
                &&& response.status_code != 0 ==> told.0 == FailureAnswerView::Error(response)
            }
        }),
{
}

} // verus!

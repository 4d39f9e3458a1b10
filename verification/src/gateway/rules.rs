//! The rules of the gateway.
use vstd::prelude::*;
use crate::ids::{id_text, uuid_text, ConfigId};

verus! {

#[derive(Debug)]
pub struct HttpUpstreamRuleConfig {
    pub id: ConfigId,
    pub enable: bool,
    pub name: String,
    pub domains: Vec<String>,
    pub match_rule: HttpUpstreamMatchRule,
    pub upstream: HttpUpstreamConfig,
}

/// What a rule is for.
#[derive(Debug)]
pub enum HttpUpstreamMatchRule {
    /// Requests to the rule's domains, with separate upstreams for some paths.
    Host { path_groups: Vec<HttpPathGroup> },
    /// TLS connections to the rule's domains, passed through unopened.
    SniProxy,
    /// Requests by path; kept for rules that were made before.
    LegacyPathPrefix { prefix: String },
}

/// What a rule is for, in the form that older records have, where the domains
/// stand inside.
#[derive(Debug)]
pub enum HttpUpstreamMatchRuleCompat {
    Host { domains: Vec<String>, path_groups: Vec<HttpPathGroup> },
    PathPrefix { domains: Vec<String>, prefix: String },
    SniProxy { domains: Vec<String> },
    LegacyPathPrefix { prefix: String },
}

/// A rule in either form.
#[derive(Debug)]
pub struct HttpUpstreamRuleConfigCompat {
    pub id: ConfigId,
    pub enable: bool,
    pub name: String,
    pub domains: Vec<String>,
    pub match_rule: HttpUpstreamMatchRuleCompat,
    pub upstream: HttpUpstreamConfig,
}

/// A separate upstream for the paths under a prefix.
#[derive(Debug)]
pub struct HttpPathGroup {
    pub prefix: String,
    pub rewrite_mode: PathRewriteMode,
    pub upstream: HttpUpstreamConfig,
}

/// What the upstream sees of the prefix.
#[derive(Debug, Clone, Copy, PartialEq, Eq, Structural)]
pub enum PathRewriteMode {
    Preserve,
    StripPrefix,
}

impl Default for PathRewriteMode {
    fn default() -> (r: Self)
        ensures
            r is Preserve,
    {
        PathRewriteMode::Preserve
    }
}

#[derive(Debug)]
pub struct HttpUpstreamConfig {
    pub targets: Vec<HttpUpstreamTarget>,
    pub load_balance: LoadBalanceMethod,
    pub health_check: Option<HealthCheckConfig>,
    pub request_headers: Vec<ProxyRequestHeader>,
    pub header_conflict_mode: ProxyHeaderConflictMode,
    pub client_ip_headers: ClientIpHeaderPolicy,
}

#[derive(Debug, PartialEq, Eq)]
pub struct HttpUpstreamTarget {
    pub address: String,
    pub port: u16,
    pub weight: u32,
    pub tls: bool,
    pub skip_cert_verify: bool,
}

impl Clone for HttpUpstreamTarget {
    fn clone(&self) -> (r: Self)
        ensures
            r == *self,
    {
        HttpUpstreamTarget {
            address: self.address.clone(),
            port: self.port,
            weight: self.weight,
            tls: self.tls,
            skip_cert_verify: self.skip_cert_verify,
        }
    }
}

/// The weight of a target that names none.
pub fn default_weight() -> (r: u32)
    ensures
        r == 1,
{
    1
}

/// How a target is chosen.
#[derive(Debug, Clone, Copy, PartialEq, Eq, Structural)]
pub enum LoadBalanceMethod {
    RoundRobin,
    Random,
    Consistent,
}

impl Default for LoadBalanceMethod {
    fn default() -> (r: Self)
        ensures
            r is RoundRobin,
    {
        LoadBalanceMethod::RoundRobin
    }
}

/// A header that is added to requests.
#[derive(Debug, PartialEq, Eq)]
pub struct ProxyRequestHeader {
    pub name: String,
    pub value: String,
}

impl Clone for ProxyRequestHeader {
    fn clone(&self) -> (r: Self)
        ensures
            r == *self,
    {
        ProxyRequestHeader { name: self.name.clone(), value: self.value.clone() }
    }
}

/// What happens to headers of the same name that a request has already.
#[derive(Debug, Clone, Copy, PartialEq, Eq, Structural)]
pub enum ProxyHeaderConflictMode {
    /// They are replaced.
    Replace,
    /// They stay, and the new one is added.
    Append,
}

impl Default for ProxyHeaderConflictMode {
    fn default() -> (r: Self)
        ensures
            r is Replace,
    {
        ProxyHeaderConflictMode::Replace
    }
}

/// Whether the upstream is told the client's address.
#[derive(Debug, Clone, Copy, PartialEq, Eq, Structural)]
pub enum ClientIpHeaderPolicy {
    Standard,
    Omit,
}

impl Default for ClientIpHeaderPolicy {
    fn default() -> (r: Self)
        ensures
            r is Standard,
    {
        ClientIpHeaderPolicy::Standard
    }
}

#[derive(Debug, Clone, Copy, PartialEq, Eq, Structural)]
pub struct HealthCheckConfig {
    pub interval_secs: u64,
    pub timeout_secs: u64,
    pub unhealthy_threshold: u32,
    pub healthy_threshold: u32,
}

/// The domains that stand inside the older form.
pub open spec fn nested_domains(rule: HttpUpstreamMatchRuleCompat) -> Seq<String> {
    match rule {
        HttpUpstreamMatchRuleCompat::Host { domains, .. } => domains@,
        HttpUpstreamMatchRuleCompat::PathPrefix { domains, .. } => domains@,
        HttpUpstreamMatchRuleCompat::SniProxy { domains } => domains@,
        HttpUpstreamMatchRuleCompat::LegacyPathPrefix { .. } => Seq::empty(),
    }
}

/// The domains of a rule: its own, or those inside it where it has none.
pub open spec fn current_domains(own: Seq<String>, rule: HttpUpstreamMatchRuleCompat) -> Seq<
    String,
> {
    if own.len() == 0 {
        nested_domains(rule)
    } else {
        own
    }
}

/// What the rule is for, whichever form it has.
pub open spec fn current_match_rule(rule: HttpUpstreamMatchRuleCompat) -> HttpUpstreamMatchRule {
    match rule {
        HttpUpstreamMatchRuleCompat::Host { path_groups, .. } => HttpUpstreamMatchRule::Host {
            path_groups,
        },
        HttpUpstreamMatchRuleCompat::PathPrefix { prefix, .. } => {
            HttpUpstreamMatchRule::LegacyPathPrefix { prefix }
        },
        HttpUpstreamMatchRuleCompat::SniProxy { .. } => HttpUpstreamMatchRule::SniProxy,
        HttpUpstreamMatchRuleCompat::LegacyPathPrefix { prefix } => {
            HttpUpstreamMatchRule::LegacyPathPrefix { prefix }
        },
    }
}

impl HttpUpstreamRuleConfig {
    /// The rule in its current form: domains of its own go before those that
    /// stand inside.
    pub fn from_compat(compat: HttpUpstreamRuleConfigCompat) -> (r: Self)
        ensures
            r.id == compat.id,
            r.enable == compat.enable,
            r.name == compat.name,
            r.upstream == compat.upstream,
            r.match_rule == current_match_rule(compat.match_rule),
            r.domains@ == current_domains(compat.domains@, compat.match_rule),
    {
        let (match_rule, nested) = match compat.match_rule {
            HttpUpstreamMatchRuleCompat::Host { domains, path_groups } => (
                HttpUpstreamMatchRule::Host { path_groups },
                domains,
            ),
            HttpUpstreamMatchRuleCompat::SniProxy { domains } => (
                HttpUpstreamMatchRule::SniProxy,
                domains,
            ),
            HttpUpstreamMatchRuleCompat::PathPrefix { domains, prefix } => (
                HttpUpstreamMatchRule::LegacyPathPrefix { prefix },
                domains,
            ),
            HttpUpstreamMatchRuleCompat::LegacyPathPrefix { prefix } => (
                HttpUpstreamMatchRule::LegacyPathPrefix { prefix },
                Vec::new(),
            ),
        };
        let domains = if compat.domains.len() == 0 {
            nested
        } else {
            compat.domains
        };
        HttpUpstreamRuleConfig {
            id: compat.id,
            enable: compat.enable,
            name: compat.name,
            domains,
            match_rule,
            upstream: compat.upstream,
        }
    }

    pub fn get_store_key(&self) -> (r: String)
        ensures
            r@ == uuid_text(self.id),
    {
        id_text(self.id)
    }

    pub fn get_id(&self) -> (r: ConfigId)
        ensures
            r == self.id,
    {
        self.id
    }
}

/// A rule of the older form is for the same as before: hosts with their path
/// groups, paths with their prefix, and connections that are passed through.
/// The domains inside it are its own where it has none outside.
pub proof fn law_older_rules(
    domains: Vec<String>,
    path_groups: Vec<HttpPathGroup>,
    prefix: String,
)
    ensures
        ({
            let host = HttpUpstreamMatchRuleCompat::Host { domains, path_groups };
            let path = HttpUpstreamMatchRuleCompat::PathPrefix { domains, prefix };
            let sni = HttpUpstreamMatchRuleCompat::SniProxy { domains };
            let legacy = HttpUpstreamMatchRuleCompat::LegacyPathPrefix { prefix };
            &&& current_match_rule(host) == (HttpUpstreamMatchRule::Host { path_groups })
            &&& current_match_rule(path) == (HttpUpstreamMatchRule::LegacyPathPrefix { prefix })
            &&& current_match_rule(sni) == HttpUpstreamMatchRule::SniProxy
            &&& current_match_rule(legacy) == (HttpUpstreamMatchRule::LegacyPathPrefix { prefix })
            &&& nested_domains(host) == domains@
            &&& nested_domains(path) == domains@
            &&& nested_domains(sni) == domains@
            &&& nested_domains(legacy).len() == 0
        }),
{
}

/// A rule with domains of its own keeps exactly these.
pub proof fn law_own_domains_first(own: Seq<String>, rule: HttpUpstreamMatchRuleCompat)
    ensures
        own.len() > 0 ==> current_domains(own, rule) == own,
        current_domains(Seq::empty(), rule) == nested_domains(rule),
{
}

} // verus!

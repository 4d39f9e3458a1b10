//! The rules that a flow's resolver works by.
use vstd::prelude::*;
use crate::config::defaults::{
    DEFAULT_DNS_CACHE_CAPACITY, DEFAULT_DNS_CACHE_TTL, DEFAULT_DNS_NEGATIVE_CACHE_TTL,
};
use crate::dns::types::FilterResult;
use crate::ids::ConfigId;
use crate::net::{IpAddr, Ipv4Addr, Ipv6Addr};
use crate::text::{opt_text, same_text};
use crate::viewed::{copy_list, same_list, views, Viewed};

verus! {

#[derive(Debug, Clone, Copy, PartialEq, Eq, Structural)]
pub struct CacheRuntimeConfig {
    pub cache_capacity: u32,
    pub cache_ttl: u32,
    pub negative_cache_ttl: u32,
}

impl Default for CacheRuntimeConfig {
    fn default() -> (r: Self)
        ensures
            r.cache_capacity == DEFAULT_DNS_CACHE_CAPACITY,
            r.cache_ttl == DEFAULT_DNS_CACHE_TTL,
            r.negative_cache_ttl == DEFAULT_DNS_NEGATIVE_CACHE_TTL,
    {
        CacheRuntimeConfig {
            cache_capacity: DEFAULT_DNS_CACHE_CAPACITY,
            cache_ttl: DEFAULT_DNS_CACHE_TTL,
            negative_cache_ttl: DEFAULT_DNS_NEGATIVE_CACHE_TTL,
        }
    }
}

#[derive(Debug, PartialEq, Eq)]
pub struct DohRuntimeConfig {
    pub listen_port: u16,
    pub http_endpoint: String,
}

/// How an upstream server is spoken to.
#[derive(Debug, PartialEq, Eq)]
pub enum DnsUpstreamMode {
    Plaintext,
    Tls { domain: String },
    Https { domain: String },
    Quic { domain: String },
}

pub enum UpstreamModeView {
    Plaintext,
    Tls(Seq<char>),
    Https(Seq<char>),
    Quic(Seq<char>),
}

impl View for DnsUpstreamMode {
    type V = UpstreamModeView;

    open spec fn view(&self) -> UpstreamModeView {
        match *self {
            DnsUpstreamMode::Plaintext => UpstreamModeView::Plaintext,
            DnsUpstreamMode::Tls { domain } => UpstreamModeView::Tls(domain@),
            DnsUpstreamMode::Https { domain } => UpstreamModeView::Https(domain@),
            DnsUpstreamMode::Quic { domain } => UpstreamModeView::Quic(domain@),
        }
    }
}

impl Viewed for DnsUpstreamMode {
    fn same_view(&self, other: &Self) -> (r: bool) {
        match (self, other) {
            (DnsUpstreamMode::Plaintext, DnsUpstreamMode::Plaintext) => true,
            (DnsUpstreamMode::Tls { domain: a }, DnsUpstreamMode::Tls { domain: b }) => same_text(
                a,
                b,
            ),
            (DnsUpstreamMode::Https { domain: a }, DnsUpstreamMode::Https { domain: b }) => {
                same_text(a, b)
            },
            (DnsUpstreamMode::Quic { domain: a }, DnsUpstreamMode::Quic { domain: b }) => same_text(
                a,
                b,
            ),
            _ => false,
        }
    }

    fn copy_view(&self) -> (r: Self) {
        match self {
            DnsUpstreamMode::Plaintext => DnsUpstreamMode::Plaintext,
            DnsUpstreamMode::Tls { domain } => DnsUpstreamMode::Tls { domain: domain.clone() },
            DnsUpstreamMode::Https { domain } => DnsUpstreamMode::Https { domain: domain.clone() },
            DnsUpstreamMode::Quic { domain } => DnsUpstreamMode::Quic { domain: domain.clone() },
        }
    }
}

/// The addresses that upstream queries are sent from.
#[derive(Debug, Clone, Copy, PartialEq, Eq, Structural)]
pub struct DnsBindConfig {
    pub bind_addr4: Option<Ipv4Addr>,
    pub bind_addr6: Option<Ipv6Addr>,
}

/// How a domain pattern is compared with a name.
#[derive(Debug, Clone, Copy, PartialEq, Eq, Structural)]
pub enum DomainMatchType {
    Plain,
    Regex,
    Domain,
    Full,
}

#[derive(Debug, PartialEq, Eq)]
pub struct DomainConfig {
    pub match_type: DomainMatchType,
    pub value: String,
}

pub struct DomainView {
    pub match_type: DomainMatchType,
    pub value: Seq<char>,
}

impl View for DomainConfig {
    type V = DomainView;

    open spec fn view(&self) -> DomainView {
        DomainView { match_type: self.match_type, value: self.value@ }
    }
}

impl Viewed for DomainConfig {
    fn same_view(&self, other: &Self) -> (r: bool) {
        self.match_type == other.match_type && same_text(&self.value, &other.value)
    }

    fn copy_view(&self) -> (r: Self) {
        DomainConfig { match_type: self.match_type, value: self.value.clone() }
    }
}

fn same_addresses(a: &Vec<IpAddr>, b: &Vec<IpAddr>) -> (r: bool)
    ensures
        r == (a@ == b@),
{
    if a.len() != b.len() {
        return false;
    }
    let n: usize = a.len();
    for i in 0..n
        invariant
            n == a@.len(),
            n == b@.len(),
            forall|k: int| 0 <= k < i ==> a@[k] == b@[k],
    {
        if a[i] != b[i] {
            return false;
        }
    }
    assert(a@ =~= b@);
    true
}

fn copy_addresses(a: &Vec<IpAddr>) -> (r: Vec<IpAddr>)
    ensures
        r@ == a@,
{
    let r = a.clone();
    assert(r@ =~= a@);
    r
}

/// Where a rule's queries go.
#[derive(Debug, PartialEq, Eq)]
pub struct RuntimeUpstreamTarget {
    pub mode: DnsUpstreamMode,
    pub ips: Vec<IpAddr>,
    pub port: Option<u16>,
    pub enable_ip_validation: bool,
}

pub struct UpstreamView {
    pub mode: UpstreamModeView,
    pub ips: Seq<IpAddr>,
    pub port: Option<u16>,
    pub enable_ip_validation: bool,
}

impl View for RuntimeUpstreamTarget {
    type V = UpstreamView;

    open spec fn view(&self) -> UpstreamView {
        UpstreamView {
            mode: self.mode@,
            ips: self.ips@,
            port: self.port,
            enable_ip_validation: self.enable_ip_validation,
        }
    }
}

fn same_port(a: Option<u16>, b: Option<u16>) -> (r: bool)
    ensures
        r == (a == b),
{
    match (a, b) {
        (Some(x), Some(y)) => x == y,
        (None, None) => true,
        _ => false,
    }
}

impl Viewed for RuntimeUpstreamTarget {
    fn same_view(&self, other: &Self) -> (r: bool) {
        self.mode.same_view(&other.mode) && same_addresses(&self.ips, &other.ips) && same_port(
            self.port,
            other.port,
        ) && self.enable_ip_validation == other.enable_ip_validation
    }

    fn copy_view(&self) -> (r: Self) {
        RuntimeUpstreamTarget {
            mode: self.mode.copy_view(),
            ips: copy_addresses(&self.ips),
            port: self.port,
            enable_ip_validation: self.enable_ip_validation,
        }
    }
}

/// An upstream server as it is configured.
#[derive(Debug)]
pub struct DnsUpstreamConfig {
    pub id: ConfigId,
    pub remark: String,
    pub mode: DnsUpstreamMode,
    pub ips: Vec<IpAddr>,
    pub port: Option<u16>,
    pub enable_ip_validation: Option<bool>,
}

impl DnsUpstreamConfig {
    /// What the configuration comes to at run time: addresses are not checked
    /// unless it says so.
    pub open spec fn target(self) -> UpstreamView {
        UpstreamView {
            mode: self.mode@,
            ips: self.ips@,
            port: self.port,
            enable_ip_validation: self.enable_ip_validation == Some(true),
        }
    }
}

impl vstd::std_specs::convert::FromSpecImpl<&DnsUpstreamConfig> for RuntimeUpstreamTarget {
    open spec fn obeys_from_spec() -> bool {
        false
    }

    open spec fn from_spec(value: &DnsUpstreamConfig) -> Self {
        arbitrary()
    }
}

impl From<&DnsUpstreamConfig> for RuntimeUpstreamTarget {
    fn from(value: &DnsUpstreamConfig) -> (r: Self)
        ensures
            r@ == value.target(),
    {
        RuntimeUpstreamTarget {
            mode: value.mode.copy_view(),
            ips: copy_addresses(&value.ips),
            port: value.port,
            enable_ip_validation: match value.enable_ip_validation {
                Some(v) => v,
                None => false,
            },
        }
    }
}

impl vstd::std_specs::convert::FromSpecImpl<RuntimeUpstreamTarget> for DnsUpstreamConfig {
    open spec fn obeys_from_spec() -> bool {
        false
    }

    open spec fn from_spec(value: RuntimeUpstreamTarget) -> Self {
        arbitrary()
    }
}

impl From<RuntimeUpstreamTarget> for DnsUpstreamConfig {
    fn from(value: RuntimeUpstreamTarget) -> (r: Self)
        ensures
            r.id == 0,
            r.remark@.len() == 0,
            r.mode == value.mode,
            r.ips == value.ips,
            r.port == value.port,
            r.enable_ip_validation == Some(value.enable_ip_validation),
            r.target() == value@,
    {
        DnsUpstreamConfig {
            id: 0,
            remark: String::new(),
            mode: value.mode,
            ips: value.ips,
            port: value.port,
            enable_ip_validation: Some(value.enable_ip_validation),
        }
    }
}

/// A rule: which names it is for, where their queries go and what comes
/// through.
#[derive(Debug, PartialEq, Eq)]
pub struct RuntimeDnsRule {
    pub rule_id: ConfigId,
    pub order: u32,
    pub filter: FilterResult,
    pub upstream: RuntimeUpstreamTarget,
    pub bind_config: DnsBindConfig,
    pub mark: u32,
    pub sources: Vec<DomainConfig>,
}

pub struct RuleView {
    pub rule_id: ConfigId,
    pub order: u32,
    pub filter: FilterResult,
    pub upstream: UpstreamView,
    pub bind_config: DnsBindConfig,
    pub mark: u32,
    pub sources: Seq<DomainView>,
}

impl View for RuntimeDnsRule {
    type V = RuleView;

    open spec fn view(&self) -> RuleView {
        RuleView {
            rule_id: self.rule_id,
            order: self.order,
            filter: self.filter,
            upstream: self.upstream@,
            bind_config: self.bind_config,
            mark: self.mark,
            sources: views(self.sources@),
        }
    }
}

impl Viewed for RuntimeDnsRule {
    fn same_view(&self, other: &Self) -> (r: bool) {
        self.rule_id == other.rule_id && self.order == other.order && self.filter == other.filter
            && self.upstream.same_view(&other.upstream) && same_bind(
            self.bind_config,
            other.bind_config,
        ) && self.mark == other.mark && same_list(&self.sources, &other.sources)
    }

    fn copy_view(&self) -> (r: Self) {
        RuntimeDnsRule {
            rule_id: self.rule_id,
            order: self.order,
            filter: self.filter,
            upstream: self.upstream.copy_view(),
            bind_config: self.bind_config,
            mark: self.mark,
            sources: copy_list(&self.sources),
        }
    }
}

fn same_bind(a: DnsBindConfig, b: DnsBindConfig) -> (r: bool)
    ensures
        r == (a == b),
{
    let v4: bool = match (a.bind_addr4, b.bind_addr4) {
        (Some(x), Some(y)) => x == y,
        (None, None) => true,
        _ => false,
    };
    let v6: bool = match (a.bind_addr6, b.bind_addr6) {
        (Some(x), Some(y)) => x == y,
        (None, None) => true,
        _ => false,
    };
    v4 && v6
}

/// A rule as it is configured for a flow.
#[derive(Debug)]
pub struct DNSRuntimeRule {
    pub id: ConfigId,
    pub name: String,
    pub index: u32,
    pub enable: bool,
    pub filter: FilterResult,
    pub resolve_mode: DnsUpstreamConfig,
    pub bind_config: DnsBindConfig,
    pub mark: u32,
    pub source: Vec<DomainConfig>,
    pub flow_id: u32,
}

impl DNSRuntimeRule {
    /// What the rule comes to at run time.
    pub open spec fn rule(self) -> RuleView {
        RuleView {
            rule_id: self.id,
            order: self.index,
            filter: self.filter,
            upstream: self.resolve_mode.target(),
            bind_config: self.bind_config,
            mark: self.mark,
            sources: views(self.source@),
        }
    }
}

impl vstd::std_specs::convert::FromSpecImpl<DNSRuntimeRule> for RuntimeDnsRule {
    open spec fn obeys_from_spec() -> bool {
        false
    }

    open spec fn from_spec(value: DNSRuntimeRule) -> Self {
        arbitrary()
    }
}

impl From<DNSRuntimeRule> for RuntimeDnsRule {
    fn from(value: DNSRuntimeRule) -> (r: Self)
        ensures
            r@ == value.rule(),
    {
        RuntimeDnsRule {
            rule_id: value.id,
            order: value.index,
            filter: value.filter,
            upstream: RuntimeUpstreamTarget::from(&value.resolve_mode),
            bind_config: value.bind_config,
            mark: value.mark,
            sources: value.source,
        }
    }
}

impl vstd::std_specs::convert::FromSpecImpl<RuntimeDnsRule> for DNSRuntimeRule {
    open spec fn obeys_from_spec() -> bool {
        false
    }

    open spec fn from_spec(value: RuntimeDnsRule) -> Self {
        arbitrary()
    }
}

impl From<RuntimeDnsRule> for DNSRuntimeRule {
    fn from(value: RuntimeDnsRule) -> (r: Self)
        ensures
            r.rule() == value@,
            r.enable,
            r.name@.len() == 0,
            r.flow_id == 0,
            r.resolve_mode.id == 0,
            r.resolve_mode.remark@.len() == 0,
            r.resolve_mode.enable_ip_validation is Some,
    {
        DNSRuntimeRule {
            id: value.rule_id,
            name: String::new(),
            index: value.order,
            enable: true,
            filter: value.filter,
            resolve_mode: DnsUpstreamConfig::from(value.upstream),
            bind_config: value.bind_config,
            mark: value.mark,
            source: value.sources,
            flow_id: 0,
        }
    }
}

/// Where a redirect takes its addresses from.
#[derive(Debug, Clone, Copy, PartialEq, Eq, Structural)]
pub enum DnsRedirectAnswerMode {
    StaticIps,
    AllLocalIps,
}

impl Default for DnsRedirectAnswerMode {
    fn default() -> (r: Self)
        ensures
            r is StaticIps,
    {
        DnsRedirectAnswerMode::StaticIps
    }
}

/// A redirect: which names it is for and what they are answered with.
#[derive(Debug, PartialEq, Eq)]
pub struct RuntimeRedirectRule {
    pub redirect_id: Option<ConfigId>,
    pub dynamic_source_id: Option<String>,
    pub order: u32,
    pub answer_mode: DnsRedirectAnswerMode,
    pub match_rules: Vec<DomainConfig>,
    pub result_ips: Vec<IpAddr>,
    pub ttl_secs: u32,
}

pub struct RedirectView {
    pub redirect_id: Option<ConfigId>,
    pub dynamic_source_id: Option<Seq<char>>,
    pub order: u32,
    pub answer_mode: DnsRedirectAnswerMode,
    pub match_rules: Seq<DomainView>,
    pub result_ips: Seq<IpAddr>,
    pub ttl_secs: u32,
}

impl View for RuntimeRedirectRule {
    type V = RedirectView;

    open spec fn view(&self) -> RedirectView {
        RedirectView {
            redirect_id: self.redirect_id,
            dynamic_source_id: opt_text(self.dynamic_source_id),
            order: self.order,
            answer_mode: self.answer_mode,
            match_rules: views(self.match_rules@),
            result_ips: self.result_ips@,
            ttl_secs: self.ttl_secs,
        }
    }
}

/// Whether two optional strings hold the same.
pub fn same_opt_text(a: &Option<String>, b: &Option<String>) -> (r: bool)
    ensures
        r == (opt_text(*a) == opt_text(*b)),
{
    match (a, b) {
        (Some(x), Some(y)) => same_text(x, y),
        (None, None) => true,
        _ => false,
    }
}

/// A copy of an optional string.
pub fn copy_opt_text(a: &Option<String>) -> (r: Option<String>)
    ensures
        opt_text(r) == opt_text(*a),
{
    match a {
        Some(x) => Some(x.clone()),
        None => None,
    }
}

fn same_opt_id(a: Option<ConfigId>, b: Option<ConfigId>) -> (r: bool)
    ensures
        r == (a == b),
{
    match (a, b) {
        (Some(x), Some(y)) => x == y,
        (None, None) => true,
        _ => false,
    }
}

impl Viewed for RuntimeRedirectRule {
    fn same_view(&self, other: &Self) -> (r: bool) {
        same_opt_id(self.redirect_id, other.redirect_id) && same_opt_text(
            &self.dynamic_source_id,
            &other.dynamic_source_id,
        ) && self.order == other.order && self.answer_mode == other.answer_mode && same_list(
            &self.match_rules,
            &other.match_rules,
        ) && same_addresses(&self.result_ips, &other.result_ips) && self.ttl_secs == other.ttl_secs
    }

    fn copy_view(&self) -> (r: Self) {
        RuntimeRedirectRule {
            redirect_id: self.redirect_id,
            dynamic_source_id: copy_opt_text(&self.dynamic_source_id),
            order: self.order,
            answer_mode: self.answer_mode,
            match_rules: copy_list(&self.match_rules),
            result_ips: copy_addresses(&self.result_ips),
            ttl_secs: self.ttl_secs,
        }
    }
}

/// A redirect as it is configured for a flow.
#[derive(Debug)]
pub struct DNSRedirectRuntimeRule {
    pub redirect_id: Option<ConfigId>,
    pub dynamic_redirect_source: Option<String>,
    pub answer_mode: DnsRedirectAnswerMode,
    pub match_rules: Vec<DomainConfig>,
    pub result_info: Vec<IpAddr>,
    pub ttl_secs: u32,
}

impl vstd::std_specs::convert::FromSpecImpl<DNSRedirectRuntimeRule> for RuntimeRedirectRule {
    open spec fn obeys_from_spec() -> bool {
        true
    }

    open spec fn from_spec(value: DNSRedirectRuntimeRule) -> Self {
        RuntimeRedirectRule {
            redirect_id: value.redirect_id,
            dynamic_source_id: value.dynamic_redirect_source,
            order: 0,
            answer_mode: value.answer_mode,
            match_rules: value.match_rules,
            result_ips: value.result_info,
            ttl_secs: value.ttl_secs,
        }
    }
}

impl From<DNSRedirectRuntimeRule> for RuntimeRedirectRule {
    fn from(value: DNSRedirectRuntimeRule) -> (r: Self) {
        RuntimeRedirectRule {
            redirect_id: value.redirect_id,
            dynamic_source_id: value.dynamic_redirect_source,
            order: 0,
            answer_mode: value.answer_mode,
            match_rules: value.match_rules,
            result_ips: value.result_info,
            ttl_secs: value.ttl_secs,
        }
    }
}

impl vstd::std_specs::convert::FromSpecImpl<RuntimeRedirectRule> for DNSRedirectRuntimeRule {
    open spec fn obeys_from_spec() -> bool {
        true
    }

    open spec fn from_spec(value: RuntimeRedirectRule) -> Self {
        DNSRedirectRuntimeRule {
            redirect_id: value.redirect_id,
            dynamic_redirect_source: value.dynamic_source_id,
            answer_mode: value.answer_mode,
            match_rules: value.match_rules,
            result_info: value.result_ips,
            ttl_secs: value.ttl_secs,
        }
    }
}

impl From<RuntimeRedirectRule> for DNSRedirectRuntimeRule {
    fn from(value: RuntimeRedirectRule) -> (r: Self) {
        DNSRedirectRuntimeRule {
            redirect_id: value.redirect_id,
            dynamic_redirect_source: value.dynamic_source_id,
            answer_mode: value.answer_mode,
            match_rules: value.match_rules,
            result_info: value.result_ips,
            ttl_secs: value.ttl_secs,
        }
    }
}

/// What a flow's resolver should be like.
#[derive(Debug)]
pub struct FlowDnsDesiredState {
    pub flow_id: u32,
    pub dns_rules: Vec<RuntimeDnsRule>,
    pub redirect_rules: Vec<RuntimeRedirectRule>,
    pub cache_runtime: CacheRuntimeConfig,
    pub doh_runtime: Option<DohRuntimeConfig>,
}

impl Default for FlowDnsDesiredState {
    fn default() -> (r: Self)
        ensures
            r.flow_id == 0,
            r.dns_rules@.len() == 0,
            r.redirect_rules@.len() == 0,
            r.cache_runtime.cache_capacity == DEFAULT_DNS_CACHE_CAPACITY,
            r.cache_runtime.cache_ttl == DEFAULT_DNS_CACHE_TTL,
            r.cache_runtime.negative_cache_ttl == DEFAULT_DNS_NEGATIVE_CACHE_TTL,
            r.doh_runtime is None,
    {
        FlowDnsDesiredState {
            flow_id: 0,
            dns_rules: Vec::new(),
            redirect_rules: Vec::new(),
            cache_runtime: CacheRuntimeConfig::default(),
            doh_runtime: None,
        }
    }
}

/// A redirect that goes from its configured form to its run-time form and
/// back is unchanged.
pub proof fn law_redirect_roundtrip(value: DNSRedirectRuntimeRule)
    ensures
        <DNSRedirectRuntimeRule as vstd::std_specs::convert::FromSpec<
            RuntimeRedirectRule,
        >>::from_spec(
            <RuntimeRedirectRule as vstd::std_specs::convert::FromSpec<
                DNSRedirectRuntimeRule,
            >>::from_spec(value),
        ) == value,
{
}

} // verus!

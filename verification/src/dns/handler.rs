//! The resolver of one flow: its rules, and what is decided for each request.
use vstd::prelude::*;
use crate::dns::cache::{
    build_resolves, cache_rule, in_order, migrate_item, migrated, new_cache_item, opt_item,
    rule_at, shortest_ttl, CacheDNSItem, CacheItemView, ResolutionRule, RULE_REFRESH_TTL_CAP,
};
use crate::dns::domain::PreprocessedDomain;
use crate::dns::local::{
    build_ddr_records, ddr_answer, home_arpa_answer, lan_ptr_answer, opt_redirect,
    resolve_home_arpa, resolve_lan_ptr_by_addr, v4_of, v6_of, RedirectAnswer, RedirectAnswerView,
};
use crate::dns::outside::{dns_name_text, parse_arpa_name, reverse_address};
use crate::dns::planner::{DnsRefreshPlan, HandlerRefreshPlan};
use crate::dns::request::{preflight, refusal};
use crate::dns::resolve::{
    address_from_parts, address_of, arpa_plan, below_arpa, is_below_arpa, own_answer, resolve_arpa,
    resolve_forward, ArpaPlan,
};
use crate::dns::runtime::{
    CacheRuntimeConfig, DohRuntimeConfig, FlowDnsDesiredState, RedirectView, RuleView,
    RuntimeDnsRule, RuntimeRedirectRule,
};
use crate::dns::types::{
    record_views, DnsOutcome, DnsRuntimeMarkInfo, FilterResult, Record, RecordType, RecordView,
    ResponseCode,
};
use crate::hostname::registry::without_root;
use crate::ids::ConfigId;
use crate::net::{IpAddr, Ipv4Addr, Ipv6Addr};
use crate::text::{lower, opt_str};
use crate::viewed::{copy_list, views};

verus! {

/// The rules that one flow is answered by. The cache settings are not among
/// them: all flows work by those in force.
pub struct DnsRequestHandler {
    resolves: Vec<RuntimeDnsRule>,
    redirect_rules: Vec<RuntimeRedirectRule>,
    flow_id: u32,
    doh_runtime: Option<DohRuntimeConfig>,
}

/// Answers that stay cached, each under its name and type.
pub type KeptAnswers = Vec<(String, RecordType, CacheDNSItem)>;

/// Whether the rules in force are those of a list: in their order, and of
/// several for one place the last one.
pub open spec fn in_force(rules: Seq<RuleView>, list: Seq<RuleView>) -> bool {
    &&& in_order(rules)
    &&& forall|o: u32| #[trigger] rule_at(rules, o) == rule_at(list, o)
}

/// What a running resolver has to take over by a plan.
pub open spec fn plan_for_handler(plan: DnsRefreshPlan) -> Option<HandlerRefreshPlan> {
    match plan {
        DnsRefreshPlan::Noop => None,
        DnsRefreshPlan::ApplyHandler(p) => Some(p),
        DnsRefreshPlan::RestartListener { handler_plan } => handler_plan,
    }
}

/// How the cached answers come through a change: not at all touched, or taken
/// into a new cache, where they hold no longer than the cap if there is one.
pub open spec fn cache_change(plan: Option<HandlerRefreshPlan>) -> Option<Option<u32>> {
    match plan {
        Some(HandlerRefreshPlan::ReplaceRules { .. }) => Some(Some(RULE_REFRESH_TTL_CAP)),
        Some(HandlerRefreshPlan::ApplyCacheRuntime { rebuild_cache: true }) => Some(None),
        _ => None,
    }
}

/// The new contents of the cache, where it is made anew.
pub open spec fn opt_kept(o: Option<KeptAnswers>) -> Option<Seq<KeptEntry>> {
    match o {
        Some(kept) => Some(kept_views(kept@)),
        None => None,
    }
}

impl DnsRequestHandler {
    #[verifier::type_invariant]
    closed spec fn rules_in_order(&self) -> bool {
        in_order(views(self.resolves@))
    }

    /// The rules, each at its place.
    pub closed spec fn rules(&self) -> Seq<RuleView> {
        views(self.resolves@)
    }

    pub closed spec fn redirects(&self) -> Seq<RedirectView> {
        views(self.redirect_rules@)
    }

    pub closed spec fn flow(&self) -> u32 {
        self.flow_id
    }

    /// The port on which queries over HTTPS are taken, if they are.
    pub closed spec fn doh_port(&self) -> Option<u16> {
        match self.doh_runtime {
            Some(doh) => Some(doh.listen_port),
            None => None,
        }
    }

    pub fn new(
        desired_state: FlowDnsDesiredState,
        flow_id: u32,
        doh_runtime: Option<DohRuntimeConfig>,
    ) -> (r: Self)
        ensures
            in_force(r.rules(), views(desired_state.dns_rules@)),
            r.redirects() == views(desired_state.redirect_rules@),
            r.flow() == flow_id,
            r.doh_port() == (match doh_runtime {
                Some(doh) => Some(doh.listen_port),
                None => None,
            }),
    {
        DnsRequestHandler {
            resolves: build_resolves(desired_state.dns_rules),
            redirect_rules: desired_state.redirect_rules,
            flow_id,
            doh_runtime,
        }
    }

    /// Puts other rules in force. The cached answers go under them into a new
    /// cache, and hold only a short time more.
    pub fn renew_dns_rules(
        &mut self,
        dns_rules: Vec<RuntimeDnsRule>,
        cached: &Vec<CacheEntry>,
    ) -> (kept: KeptAnswers)
        ensures
            in_force(final(self).rules(), views(dns_rules@)),
            final(self).redirects() == old(self).redirects(),
            final(self).flow() == old(self).flow(),
            final(self).doh_port() == old(self).doh_port(),
            kept_views(kept@) == migrated_entries(cached@, Some(RULE_REFRESH_TTL_CAP)),
    {
        let kept = migrate_cache(cached, Some(RULE_REFRESH_TTL_CAP));
        self.resolves = build_resolves(dns_rules);
        kept
    }

    /// Puts other redirects in force, and nothing else.
    pub fn renew_redirect_rules(&mut self, redirect_rules: Vec<RuntimeRedirectRule>)
        ensures
            final(self).rules() == old(self).rules(),
            final(self).redirects() == views(redirect_rules@),
            final(self).flow() == old(self).flow(),
            final(self).doh_port() == old(self).doh_port(),
    {
        proof {
            use_type_invariant(&*self);
        }
        self.redirect_rules = redirect_rules;
    }

    /// Puts other rules and redirects in force.
    pub fn renew_rules(
        &mut self,
        desired_state: FlowDnsDesiredState,
        cached: &Vec<CacheEntry>,
    ) -> (kept: KeptAnswers)
        ensures
            in_force(final(self).rules(), views(desired_state.dns_rules@)),
            final(self).redirects() == views(desired_state.redirect_rules@),
            final(self).flow() == old(self).flow(),
            final(self).doh_port() == old(self).doh_port(),
            kept_views(kept@) == migrated_entries(cached@, Some(RULE_REFRESH_TTL_CAP)),
    {
        let kept = self.renew_dns_rules(desired_state.dns_rules, cached);
        self.renew_redirect_rules(desired_state.redirect_rules);
        kept
    }

    /// What goes into a new cache where the cache settings in force ask for one;
    /// the rules and redirects stay as they are.
    pub fn renew_runtime_config(&self, rebuild_cache: bool, cached: &Vec<CacheEntry>) -> (kept:
        Option<KeptAnswers>)
        ensures
            opt_kept(kept) == (if rebuild_cache {
                Some(migrated_entries(cached@, None))
            } else {
                None
            }),
    {
        if rebuild_cache {
            Some(migrate_cache(cached, None))
        } else {
            None
        }
    }

    /// Takes over what a plan says. Gives the contents of the new cache where
    /// the cache is made anew; the entries bear the rules that are in force
    /// afterwards.
    pub fn apply_handler_plan(
        &mut self,
        desired_state: &FlowDnsDesiredState,
        plan: &DnsRefreshPlan,
        cached: &Vec<CacheEntry>,
    ) -> (kept: Option<KeptAnswers>)
        ensures
            match plan_for_handler(*plan) {
                Some(HandlerRefreshPlan::ReplaceRules { .. }) => in_force(
                    final(self).rules(),
                    views(desired_state.dns_rules@),
                ),
                _ => final(self).rules() == old(self).rules(),
            },
            final(self).redirects() == (match plan_for_handler(*plan) {
                Some(HandlerRefreshPlan::ReplaceRules { include_redirects: true }) => views(
                    desired_state.redirect_rules@,
                ),
                Some(HandlerRefreshPlan::ReplaceRedirects) => views(desired_state.redirect_rules@),
                _ => old(self).redirects(),
            }),
            final(self).flow() == old(self).flow(),
            final(self).doh_port() == old(self).doh_port(),
            opt_kept(kept) == (match cache_change(plan_for_handler(*plan)) {
                Some(cap) => Some(migrated_entries(cached@, cap)),
                None => None,
            }),
    {
        let taken = match plan {
            DnsRefreshPlan::Noop => None,
            DnsRefreshPlan::ApplyHandler(p) => Some(*p),
            DnsRefreshPlan::RestartListener { handler_plan } => *handler_plan,
        };
        match taken {
            None => None,
            Some(HandlerRefreshPlan::ReplaceRules { include_redirects }) => {
                let kept = self.renew_dns_rules(copy_list(&desired_state.dns_rules), cached);
                if include_redirects {
                    self.renew_redirect_rules(copy_list(&desired_state.redirect_rules));
                }
                Some(kept)
            },
            Some(HandlerRefreshPlan::ReplaceRedirects) => {
                self.renew_redirect_rules(copy_list(&desired_state.redirect_rules));
                None
            },
            Some(HandlerRefreshPlan::ApplyCacheRuntime { rebuild_cache }) => {
                self.renew_runtime_config(rebuild_cache, cached)
            },
        }
    }

    /// The rules, in their order.
    pub fn resolves(&self) -> (r: &Vec<RuntimeDnsRule>)
        ensures
            views(r@) == self.rules(),
            in_order(self.rules()),
    {
        proof {
            use_type_invariant(self);
        }
        &self.resolves
    }

    pub fn redirect_rules(&self) -> (r: &Vec<RuntimeRedirectRule>)
        ensures
            views(r@) == self.redirects(),
    {
        &self.redirect_rules
    }

    pub fn flow_id(&self) -> (r: u32)
        ensures
            r == self.flow(),
    {
        self.flow_id
    }

    /// The announcement of the flow's encrypted resolver: there is none where
    /// no queries are taken over HTTPS, no names are known under which they
    /// are, or the path has no template.
    pub fn build_ddr_records(
        &self,
        domains: Option<&[String]>,
        path_template: Option<&Vec<u8>>,
        local_v4: &[IpAddr],
        local_v6: &[IpAddr],
    ) -> (r: Vec<Record>)
        ensures
            record_views(r@) == (match (self.doh_port(), domains, path_template) {
                (Some(port), Some(names), Some(path)) => ddr_answer(
                    names@,
                    port,
                    path@,
                    v4_of(local_v4@),
                    v6_of(local_v6@),
                ),
                _ => Seq::empty(),
            }),
    {
        if let Some(doh) = &self.doh_runtime {
            if let Some(names) = domains {
                if let Some(path) = path_template {
                    return build_ddr_records(names, doh.listen_port, path, local_v4, local_v6);
                }
            }
        }
        let none: Vec<Record> = Vec::new();
        assert(record_views(none@) =~= Seq::empty());
        none
    }

    /// The item that an answer is cached as; a negative answer holds as long
    /// as the settings in force say.
    pub fn insert(
        &self,
        live_config: &CacheRuntimeConfig,
        rdata_ttl_vec: Vec<Record>,
        response_code: ResponseCode,
        mark: DnsRuntimeMarkInfo,
        filter: FilterResult,
        matched_rule_id: Option<ConfigId>,
        matched_rule_order: Option<u32>,
        now: u128,
    ) -> (r: Option<CacheDNSItem>)
        ensures
            opt_item(r) == ({
                let ttl = shortest_ttl(
                    record_views(rdata_ttl_vec@),
                    live_config.negative_cache_ttl,
                );
                if ttl == 0 {
                    None
                } else {
                    Some(
                        CacheItemView {
                            rdatas: record_views(rdata_ttl_vec@),
                            response_code,
                            mark,
                            insert_time: now,
                            min_ttl: ttl,
                            filter,
                            matched_rule_id,
                            matched_rule_order,
                        },
                    )
                }
            }),
    {
        new_cache_item(
            rdata_ttl_vec,
            response_code,
            mark,
            filter,
            matched_rule_id,
            matched_rule_order,
            live_config.negative_cache_ttl,
            now,
        )
    }
}

/// A cached answer, and the new rules as they bear on its name.
#[derive(Debug)]
pub struct CacheEntry {
    pub domain: String,
    pub query_type: RecordType,
    pub item: CacheDNSItem,
    pub rules: Vec<ResolutionRule>,
}

/// A cached answer under its name and type.
pub struct KeptEntry {
    pub domain: Seq<char>,
    pub query_type: RecordType,
    pub item: CacheItemView,
}

/// What becomes of the cached answers, in order: each goes under its new rule,
/// and those without one are dropped.
pub open spec fn migrated_entries(entries: Seq<CacheEntry>, ttl_cap: Option<u32>) -> Seq<KeptEntry>
    decreases entries.len(),
{
    if entries.len() == 0 {
        Seq::empty()
    } else {
        let before = migrated_entries(entries.drop_last(), ttl_cap);
        let e = entries.last();
        match cache_rule(e.rules@, e.item@) {
            Some(rule) => before.push(
                KeptEntry {
                    domain: e.domain@,
                    query_type: e.query_type,
                    item: migrated(e.item@, rule, ttl_cap),
                },
            ),
            None => before,
        }
    }
}

/// The kept answers with their views.
pub open spec fn kept_views(v: Seq<(String, RecordType, CacheDNSItem)>) -> Seq<KeptEntry> {
    v.map_values(
        |e: (String, RecordType, CacheDNSItem)|
            KeptEntry { domain: e.0@, query_type: e.1, item: e.2@ },
    )
}

pub fn migrate_cache(entries: &Vec<CacheEntry>, ttl_cap: Option<u32>) -> (r: KeptAnswers)
    ensures
        kept_views(r@) == migrated_entries(entries@, ttl_cap),
{
    let mut kept: KeptAnswers = Vec::new();
    let n: usize = entries.len();
    let ghost all = entries@;
    assert(all.take(0) =~= Seq::empty());
    assert(kept_views(kept@) =~= Seq::empty());
    for i in 0..n
        invariant
            n == all.len(),
            all == entries@,
            kept_views(kept@) == migrated_entries(all.take(i as int), ttl_cap),
    {
        assert(all.take(i + 1).drop_last() =~= all.take(i as int));
        let entry = &entries[i];
        if let Some(item) = migrate_item(&entry.item, &entry.rules, ttl_cap) {
            let ghost before = kept@;
            let ghost view = KeptEntry {
                domain: entry.domain@,
                query_type: entry.query_type,
                item: item@,
            };
            kept.push((entry.domain.clone(), entry.query_type, item));
            assert(kept_views(kept@) =~= kept_views(before).push(view));
        }
    }
    assert(all.take(n as int) =~= all);
    kept
}

/// What is to be done next for a request.
#[derive(Debug)]
pub enum QueryStep {
    /// Answer with the code and nothing else.
    Refuse(ResponseCode),
    /// Answer with the records.
    Respond(Vec<Record>, DnsOutcome),
    /// Answer with the announcement of encrypted resolvers.
    Announce,
    /// Look up the name that the address leads to.
    LookUpAddress(IpAddr),
    /// Look in the cache, and ask the upstream server of a rule.
    CacheOrUpstream,
}

pub enum QueryStepView {
    Refuse(ResponseCode),
    Respond(Seq<RecordView>, DnsOutcome),
    Announce,
    LookUpAddress(IpAddr),
    CacheOrUpstream,
}

impl View for QueryStep {
    type V = QueryStepView;

    open spec fn view(&self) -> QueryStepView {
        match *self {
            QueryStep::Refuse(code) => QueryStepView::Refuse(code),
            QueryStep::Respond(records, outcome) => QueryStepView::Respond(
                record_views(records@),
                outcome,
            ),
            QueryStep::Announce => QueryStepView::Announce,
            QueryStep::LookUpAddress(ip) => QueryStepView::LookUpAddress(ip),
            QueryStep::CacheOrUpstream => QueryStepView::CacheOrUpstream,
        }
    }
}

/// The first step for a name below `arpa` that no redirect answers.
pub open spec fn arpa_step(
    name: Seq<char>,
    owner: Seq<char>,
    query_type: RecordType,
    ipv4: Option<Ipv4Addr>,
    ipv6: Option<Ipv6Addr>,
    parsed: Option<(bool, u128)>,
) -> QueryStepView {
    match arpa_plan(name, query_type) {
        ArpaPlan::Empty(outcome) => QueryStepView::Respond(Seq::empty(), outcome),
        ArpaPlan::Announce => QueryStepView::Announce,
        ArpaPlan::Home => {
            let answer = home_arpa_answer(name, owner, ipv4, ipv6, query_type);
            QueryStepView::Respond(answer.0, answer.1)
        },
        ArpaPlan::Reverse => match address_of(parsed) {
            Some(ip) => QueryStepView::LookUpAddress(ip),
            None => QueryStepView::Respond(Seq::empty(), DnsOutcome::NxDomain),
        },
    }
}

/// The first step for an accepted question.
pub open spec fn question_step(
    name: Seq<char>,
    owner: Seq<char>,
    query_type: RecordType,
    redirect: Option<RedirectAnswerView>,
    local_tld: bool,
    ipv4: Option<Ipv4Addr>,
    ipv6: Option<Ipv6Addr>,
    parsed: Option<(bool, u128)>,
) -> QueryStepView {
    match redirect {
        Some(answer) => QueryStepView::Respond(answer.records, answer.outcome),
        None => if below_arpa(name) {
            arpa_step(name, owner, query_type, ipv4, ipv6, parsed)
        } else {
            match own_answer(name, owner, query_type, local_tld, ipv4, ipv6) {
                Some(answer) => QueryStepView::Respond(answer.0, answer.1),
                None => QueryStepView::CacheOrUpstream,
            }
        },
    }
}

/// Starts on a name below `arpa` that no redirect answers. `parsed` is the
/// address that the name stands for in reverse, if it does.
pub fn answer_arpa(
    domain: &PreprocessedDomain,
    owner: &str,
    query_type: RecordType,
    ipv4: Option<Ipv4Addr>,
    ipv6: Option<Ipv6Addr>,
    parsed: Option<(bool, u128)>,
) -> (r: QueryStep)
    ensures
        r@ == arpa_step(domain.name_text(), owner@, query_type, ipv4, ipv6, parsed),
{
    let none: Vec<Record> = Vec::new();
    assert(record_views(none@) =~= Seq::empty());
    match resolve_arpa(domain, query_type) {
        ArpaPlan::Empty(outcome) => QueryStep::Respond(none, outcome),
        ArpaPlan::Announce => QueryStep::Announce,
        ArpaPlan::Home => {
            let (records, outcome) = resolve_home_arpa(domain, owner, ipv4, ipv6, query_type);
            QueryStep::Respond(records, outcome)
        },
        ArpaPlan::Reverse => match address_from_parts(parsed) {
            Some(ip) => QueryStep::LookUpAddress(ip),
            None => QueryStep::Respond(none, DnsOutcome::NxDomain),
        },
    }
}

/// Starts on a name below `arpa` that no redirect answers, of whatever type the
/// query is.
pub fn resolve_arpa_name(
    domain: &PreprocessedDomain,
    owner: &str,
    query_type: RecordType,
    ipv4: Option<Ipv4Addr>,
    ipv6: Option<Ipv6Addr>,
) -> (r: QueryStep)
    ensures
        r@ == arpa_step(
            domain.name_text(),
            owner@,
            query_type,
            ipv4,
            ipv6,
            reverse_address(domain.raw_text()),
        ),
{
    answer_arpa(domain, owner, query_type, ipv4, ipv6, parse_arpa_name(domain.raw()))
}

/// Starts on an accepted question. Records are given under `owner`, the
/// redirect is the one that answers the question, the addresses are those
/// registered for the host part of the name, and `parsed` is the address that
/// the name stands for in reverse, if it does.
pub fn answer_question(
    domain: &PreprocessedDomain,
    owner: &str,
    query_type: RecordType,
    redirect: Option<RedirectAnswer>,
    local_tld: bool,
    ipv4: Option<Ipv4Addr>,
    ipv6: Option<Ipv6Addr>,
    parsed: Option<(bool, u128)>,
) -> (r: QueryStep)
    ensures
        r@ == question_step(
            domain.name_text(),
            owner@,
            query_type,
            opt_redirect(redirect),
            local_tld,
            ipv4,
            ipv6,
            parsed,
        ),
{
    if let Some(answer) = redirect {
        return QueryStep::Respond(answer.records, answer.outcome);
    }
    if is_below_arpa(domain) {
        return answer_arpa(domain, owner, query_type, ipv4, ipv6, parsed);
    }
    match resolve_forward(domain, owner, query_type, None, local_tld, ipv4, ipv6) {
        Some((records, outcome)) => QueryStep::Respond(records, outcome),
        None => QueryStep::CacheOrUpstream,
    }
}

/// The first step for a request, given the code that refuses it, if any, and of
/// its question the name as it came, the DNS name that this is, if any, and the
/// address that it stands for in reverse, if any.
pub open spec fn request_step(
    refused: Option<ResponseCode>,
    asked: (Seq<char>, Option<Seq<char>>, Option<(bool, u128)>),
    query_type: RecordType,
    redirect: Option<RedirectAnswerView>,
    local_tld: bool,
    ipv4: Option<Ipv4Addr>,
    ipv6: Option<Ipv6Addr>,
) -> QueryStepView {
    let (name, dns_name, parsed) = asked;
    match (refused, dns_name) {
        (Some(code), _) => QueryStepView::Refuse(code),
        (None, None) => QueryStepView::Refuse(ResponseCode::FormErr),
        (None, Some(owner)) => question_step(
            lower(without_root(name)),
            owner,
            query_type,
            redirect,
            local_tld,
            ipv4,
            ipv6,
            parsed,
        ),
    }
}

/// Starts on a request. A request that is accepted but whose question is not
/// for a DNS name is malformed.
pub fn handle_request(
    questions: usize,
    is_query: bool,
    is_internet: bool,
    name: &str,
    query_type: RecordType,
    redirect: Option<RedirectAnswer>,
    local_tld: bool,
    ipv4: Option<Ipv4Addr>,
    ipv6: Option<Ipv6Addr>,
) -> (r: QueryStep)
    ensures
        r@ == request_step(
            refusal(questions, is_query, is_internet, query_type),
            (name@, dns_name_text(name@), reverse_address(name@)),
            query_type,
            opt_redirect(redirect),
            local_tld,
            ipv4,
            ipv6,
        ),
{
    if let Some(code) = preflight(questions, is_query, is_internet, query_type) {
        return QueryStep::Refuse(code);
    }
    let domain = PreprocessedDomain::new(name);
    let owner = match domain.as_dns_name() {
        Some(owner) => owner,
        None => {
            return QueryStep::Refuse(ResponseCode::FormErr);
        },
    };
    let parsed = if is_below_arpa(&domain) {
        parse_arpa_name(name)
    } else {
        None
    };
    answer_question(&domain, &owner, query_type, redirect, local_tld, ipv4, ipv6, parsed)
}

/// Goes on with a reverse query once the name that the address leads to was
/// looked up: the router answers for the addresses that it manages, and others
/// are asked for upstream.
pub fn answer_reverse_query(
    owner: &str,
    addr: IpAddr,
    managed: bool,
    registered: Option<&str>,
) -> (r: QueryStep)
    ensures
        r@ == (match lan_ptr_answer(owner@, addr, managed, opt_str(registered)) {
            Some(answer) => QueryStepView::Respond(answer.0, answer.1),
            None => QueryStepView::CacheOrUpstream,
        }),
{
    match resolve_lan_ptr_by_addr(addr, owner, managed, registered) {
        Some((records, outcome)) => QueryStep::Respond(records, outcome),
        None => QueryStep::CacheOrUpstream,
    }
}

/// A redirect answers before anything else does.
pub proof fn law_redirect_first(
    name: Seq<char>,
    owner: Seq<char>,
    query_type: RecordType,
    redirect: RedirectAnswerView,
    local_tld: bool,
    ipv4: Option<Ipv4Addr>,
    ipv6: Option<Ipv6Addr>,
    parsed: Option<(bool, u128)>,
)
    ensures
        question_step(
            name,
            owner,
            query_type,
            Some(redirect),
            local_tld,
            ipv4,
            ipv6,
            parsed,
        ) == QueryStepView::Respond(redirect.records, redirect.outcome),
{
}

/// A name below `arpa` leaves the router only as a reverse query.
pub proof fn law_arpa_stays_home(
    name: Seq<char>,
    owner: Seq<char>,
    query_type: RecordType,
    ipv4: Option<Ipv4Addr>,
    ipv6: Option<Ipv6Addr>,
    parsed: Option<(bool, u128)>,
)
    ensures
        !(arpa_step(name, owner, query_type, ipv4, ipv6, parsed) is CacheOrUpstream),
        arpa_step(name, owner, query_type, ipv4, ipv6, parsed) is LookUpAddress ==> arpa_plan(
            name,
            query_type,
        ) is Reverse,
{
}

proof fn lemma_no_entry_longer(entries: Seq<CacheEntry>, cap: u32, i: int)
    requires
        0 <= i < migrated_entries(entries, Some(cap)).len(),
    ensures
        migrated_entries(entries, Some(cap))[i].item.min_ttl <= cap,
    decreases entries.len(),
{
    if entries.len() > 0 {
        let before = migrated_entries(entries.drop_last(), Some(cap));
        if i < before.len() {
            lemma_no_entry_longer(entries.drop_last(), cap, i);
        }
    }
}

/// After the rules changed no cached answer holds longer than the cap.
pub proof fn law_rule_change_caps_cache(entries: Seq<CacheEntry>, cap: u32, i: int)
    requires
        0 <= i < migrated_entries(entries, Some(cap)).len(),
    ensures
        migrated_entries(entries, Some(cap))[i].item.min_ttl <= cap,
{
    lemma_no_entry_longer(entries, cap, i);
}

/// Without a redirect, a name that ends in `.arpa` is answered by what stands
/// below it; any other by the router itself where it has an answer, and else
/// by the cache or an upstream server.
pub proof fn law_who_answers(
    name: Seq<char>,
    owner: Seq<char>,
    query_type: RecordType,
    local_tld: bool,
    ipv4: Option<Ipv4Addr>,
    ipv6: Option<Ipv6Addr>,
    parsed: Option<(bool, u128)>,
)
    ensures
        ({
            let step = question_step(
                name,
                owner,
                query_type,
                None,
                local_tld,
                ipv4,
                ipv6,
                parsed,
            );
            let own = own_answer(name, owner, query_type, local_tld, ipv4, ipv6);
            &&& ".arpa"@.is_suffix_of(name) ==> step == arpa_step(
                name,
                owner,
                query_type,
                ipv4,
                ipv6,
                parsed,
            )
            &&& !".arpa"@.is_suffix_of(name) ==> (own matches Some((records, outcome)) ==> step
                == QueryStepView::Respond(records, outcome))
            &&& !".arpa"@.is_suffix_of(name) && own is None ==> step
                == QueryStepView::CacheOrUpstream
        }),
{
}

/// A name below `arpa` is answered by its plan: without records, by the
/// announcement, as a host on the LAN, or by looking up the address that it
/// stands for; one that stands for no address does not exist.
pub proof fn law_arpa_plan_is_carried_out(
    name: Seq<char>,
    owner: Seq<char>,
    query_type: RecordType,
    ipv4: Option<Ipv4Addr>,
    ipv6: Option<Ipv6Addr>,
    parsed: Option<(bool, u128)>,
)
    ensures
        ({
            let step = arpa_step(name, owner, query_type, ipv4, ipv6, parsed);
            match arpa_plan(name, query_type) {
                ArpaPlan::Empty(outcome) => step == QueryStepView::Respond(Seq::empty(), outcome),
                ArpaPlan::Announce => step == QueryStepView::Announce,
                ArpaPlan::Home => step matches QueryStepView::Respond(records, outcome) && (
                records, outcome) == home_arpa_answer(name, owner, ipv4, ipv6, query_type),
                ArpaPlan::Reverse => match parsed {
                    Some((true, bits)) => bits <= u32::MAX ==> step
                        == QueryStepView::LookUpAddress(IpAddr::V4(Ipv4Addr { bits: bits as u32 })),
                    Some((false, bits)) => step == QueryStepView::LookUpAddress(
                        IpAddr::V6(crate::net::Ipv6Addr { bits }),
                    ),
                    None => step == QueryStepView::Respond(Seq::empty(), DnsOutcome::NxDomain),
                },
            }
        }),
{
}

/// Cached answers are taken over one by one, in order: each under its own name
/// and type and its new rule, and those without a rule are dropped.
pub proof fn law_each_answer_is_taken_over_alone(
    front: Seq<CacheEntry>,
    e: CacheEntry,
    ttl_cap: Option<u32>,
)
    ensures
        migrated_entries(Seq::empty(), ttl_cap) == Seq::<KeptEntry>::empty(),
        ({
            let before = migrated_entries(front, ttl_cap);
            let after = migrated_entries(front.push(e), ttl_cap);
            match cache_rule(e.rules@, e.item@) {
                Some(rule) => {
                    &&& after.len() == before.len() + 1
                    &&& after.drop_last() == before
                    &&& after.last().domain == e.domain@
                    &&& after.last().query_type == e.query_type
                    &&& after.last().item == migrated(e.item@, rule, ttl_cap)
                },
                None => after == before,
            }
        }),
{
    assert(front.push(e).drop_last() =~= front);
    let before = migrated_entries(front, ttl_cap);
    if cache_rule(e.rules@, e.item@) is Some {
        assert(migrated_entries(front.push(e), ttl_cap).drop_last() =~= before);
    }
}

/// A change of rules puts the cached answers into a new cache for five seconds
/// at most, a cache that is made anew takes them over as they are, and nothing
/// else touches them.
pub proof fn law_what_becomes_of_the_cache(plan: Option<HandlerRefreshPlan>)
    ensures
        plan matches Some(HandlerRefreshPlan::ReplaceRules { .. }) ==> cache_change(plan) == Some(
            Some(5u32),
        ),
        plan matches Some(HandlerRefreshPlan::ApplyCacheRuntime { rebuild_cache }) ==> cache_change(
            plan,
        ) == if rebuild_cache {
            Some(None::<u32>)
        } else {
            None
        },
        plan == Some(HandlerRefreshPlan::ReplaceRedirects) || plan is None ==> cache_change(plan)
            is None,
        plan_for_handler(DnsRefreshPlan::Noop) is None,
        plan is Some ==> plan_for_handler(DnsRefreshPlan::ApplyHandler(plan->0)) == plan,
        plan_for_handler(DnsRefreshPlan::RestartListener { handler_plan: plan }) == plan,
{
}

/// A request is refused with its code before anything else is looked at, even a
/// redirect; then one whose question is for no DNS name is malformed; then a
/// redirect answers, and the rest goes by the name in lower case, whatever its
/// letter case was and whether a dot ended it.
pub proof fn law_requests_are_started(
    refused: Option<ResponseCode>,
    name: Seq<char>,
    other: Seq<char>,
    dns_name: Option<Seq<char>>,
    parsed: Option<(bool, u128)>,
    query_type: RecordType,
    redirect: Option<RedirectAnswerView>,
    local_tld: bool,
    ipv4: Option<Ipv4Addr>,
    ipv6: Option<Ipv6Addr>,
)
    ensures
        ({
            let step = request_step(
                refused,
                (name, dns_name, parsed),
                query_type,
                redirect,
                local_tld,
                ipv4,
                ipv6,
            );
            &&& refused matches Some(code) ==> step == QueryStepView::Refuse(code)
            &&& refused is None && dns_name is None ==> step == QueryStepView::Refuse(
                ResponseCode::FormErr,
            )
            &&& refused is None && dns_name is Some ==> (redirect matches Some(answer) ==> step
                == QueryStepView::Respond(answer.records, answer.outcome))
            &&& lower(name) == lower(other) ==> step == request_step(
                refused,
                (other, dns_name, parsed),
                query_type,
                redirect,
                local_tld,
                ipv4,
                ipv6,
            )
            &&& (name.len() == 0 || name.last() != '.') ==> step == request_step(
                refused,
                (name.push('.'), dns_name, parsed),
                query_type,
                redirect,
                local_tld,
                ipv4,
                ipv6,
            )
        }),
{
    assert(name.push('.').drop_last() =~= name);
    if lower(name) == lower(other) {
        assert(lower(name).len() == name.len() && lower(other).len() == other.len());
        if name.len() > 0 {
            let k = name.len() - 1;
            assert(lower(name)[k] == lower(other)[k]);
            assert((name[k] == '.') == (lower(name)[k] == '.'));
            assert((other[k] == '.') == (lower(other)[k] == '.'));
            assert(lower(name.drop_last()) =~= lower(name).drop_last());
            assert(lower(other.drop_last()) =~= lower(other).drop_last());
        }
        assert(lower(without_root(name)) == lower(without_root(other)));
    }
}

} // verus!

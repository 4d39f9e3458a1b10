//! Showing how a name is answered, and refreshing what is cached for it.
use vstd::prelude::*;
use crate::dns::cache::{
    item_for, item_under_rule, opt_cached, opt_item, CacheDNSItem, CacheItemView, CachedAnswer,
    CachedView, ResolutionRule,
};
use crate::dns::check::{empty_check, CheckChainDnsResult, CheckView};
use crate::dns::domain::{host_in_front_of, last_label, PreprocessedDomain};
use crate::dns::error::{DnsError, DnsErrorView};
use crate::dns::filter::{filter_result, filtered, is_type_filtered, type_filtered};
use crate::dns::local::{
    host_records, lookup_lan_hostname, lookup_localhost, loopback_v4, loopback_v6, opt_redirect,
    RedirectAnswer, RedirectAnswerView,
};
use crate::dns::resolve::{
    below_arpa, blocked_tld, is_below_arpa, is_blocked_tld, negative_code, own_answer,
    UpstreamReply, UpstreamView,
};
use crate::dns::types::{
    copy_records, record_views, FilterResult, Record, RecordType, RecordView, ResponseCode,
};
use crate::net::{Ipv4Addr, Ipv6Addr};
use crate::text::same_text;

verus! {

/// What is to be done next for a check.
#[derive(Debug)]
pub enum CheckStep {
    /// This is the result.
    Done(CheckChainDnsResult),
    /// The name below `arpa` is to be resolved; its records are the result.
    Arpa,
    /// The upstream server is to be asked, and the cache looked at.
    AskUpstream(CheckChainDnsResult),
    /// The cache is to be looked at.
    LookInCache(CheckChainDnsResult),
}

pub enum CheckStepView {
    Done(CheckView),
    Arpa,
    AskUpstream(CheckView),
    LookInCache(CheckView),
}

impl View for CheckStep {
    type V = CheckStepView;

    open spec fn view(&self) -> CheckStepView {
        match *self {
            CheckStep::Done(r) => CheckStepView::Done(r@),
            CheckStep::Arpa => CheckStepView::Arpa,
            CheckStep::AskUpstream(r) => CheckStepView::AskUpstream(r@),
            CheckStep::LookInCache(r) => CheckStepView::LookInCache(r@),
        }
    }
}

/// A result with nothing but records.
pub open spec fn only_records(records: Seq<RecordView>) -> CheckView {
    CheckView { records: Some(records), ..empty_check() }
}

/// A result that names the rule that the name falls under.
pub open spec fn under_rule(rule: ResolutionRule, query_type: RecordType) -> CheckView {
    CheckView {
        rule_id: Some(rule.config_id),
        rule_filter: Some(rule.filter),
        query_filtered: type_filtered(query_type, rule.filter),
        ..empty_check()
    }
}

/// The result for a name below a local domain.
pub open spec fn local_result(
    name: Seq<char>,
    owner: Seq<char>,
    query_type: RecordType,
    ipv4: Option<Ipv4Addr>,
    ipv6: Option<Ipv6Addr>,
) -> CheckView {
    if host_in_front_of(name, last_label(name)) is Some {
        only_records(host_records(owner, ipv4, ipv6, query_type))
    } else {
        empty_check()
    }
}

/// Where a check starts.
pub open spec fn check_step(
    name: Seq<char>,
    owner: Seq<char>,
    query_type: RecordType,
    apply_filter: bool,
    redirect: Option<RedirectAnswerView>,
    local_tld: bool,
    ipv4: Option<Ipv4Addr>,
    ipv6: Option<Ipv6Addr>,
    rule: Option<ResolutionRule>,
) -> CheckStepView {
    let tld = last_label(name);
    if redirect is Some {
        CheckStepView::LookInCache(
            CheckView {
                redirect_id: redirect->0.redirect_id,
                dynamic_redirect_source: redirect->0.dynamic_redirect_source,
                records: Some(redirect->0.records),
                ..empty_check()
            },
        )
    } else if blocked_tld(tld) {
        CheckStepView::Done(empty_check())
    } else if tld == "localhost"@ {
        CheckStepView::Done(
            only_records(
                host_records(owner, Some(loopback_v4()), Some(loopback_v6()), query_type),
            ),
        )
    } else if below_arpa(name) {
        CheckStepView::Arpa
    } else if local_tld {
        CheckStepView::Done(local_result(name, owner, query_type, ipv4, ipv6))
    } else {
        match rule {
            None => CheckStepView::LookInCache(empty_check()),
            Some(r) => if type_filtered(query_type, r.filter) && apply_filter {
                CheckStepView::LookInCache(
                    CheckView { records: Some(Seq::empty()), ..under_rule(r, query_type) },
                )
            } else {
                CheckStepView::AskUpstream(under_rule(r, query_type))
            },
        }
    }
}

fn records_only(records: Vec<Record>) -> (r: CheckChainDnsResult)
    ensures
        r@ == only_records(record_views(records@)),
{
    let mut result = CheckChainDnsResult::default();
    result.records = Some(records);
    result
}

fn rule_result(rule: &ResolutionRule, query_type: RecordType) -> (r: CheckChainDnsResult)
    ensures
        r@ == under_rule(*rule, query_type),
{
    let mut result = CheckChainDnsResult::default();
    result.rule_id = Some(rule.config_id);
    result.rule_filter = Some(rule.filter);
    result.query_filtered = is_type_filtered(query_type, &rule.filter);
    result
}

fn result_for_local(
    domain: &PreprocessedDomain,
    owner: &str,
    query_type: RecordType,
    ipv4: Option<Ipv4Addr>,
    ipv6: Option<Ipv6Addr>,
) -> (r: CheckChainDnsResult)
    ensures
        r@ == local_result(domain.name_text(), owner@, query_type, ipv4, ipv6),
{
    if domain.hostname_for_tld(domain.tld()).is_some() {
        records_only(lookup_lan_hostname(owner, ipv4, ipv6, query_type))
    } else {
        CheckChainDnsResult::default()
    }
}

/// Starts a check. Records are given under `owner`, the addresses are those
/// registered for the host part of the name, and the rule is the one that the
/// name falls under.
pub fn check_domain(
    domain: &PreprocessedDomain,
    owner: &str,
    query_type: RecordType,
    apply_filter: bool,
    redirect: Option<RedirectAnswer>,
    local_tld: bool,
    ipv4: Option<Ipv4Addr>,
    ipv6: Option<Ipv6Addr>,
    rule: Option<ResolutionRule>,
) -> (r: CheckStep)
    ensures
        r@ == check_step(
            domain.name_text(),
            owner@,
            query_type,
            apply_filter,
            opt_redirect(redirect),
            local_tld,
            ipv4,
            ipv6,
            rule,
        ),
{
    let tld = domain.tld();
    if let Some(answer) = redirect {
        let mut result = CheckChainDnsResult::default();
        result.redirect_id = answer.redirect_id;
        result.dynamic_redirect_source = answer.dynamic_redirect_source;
        result.records = Some(answer.records);
        return CheckStep::LookInCache(result);
    }
    if is_blocked_tld(tld) {
        return CheckStep::Done(CheckChainDnsResult::default());
    }
    if same_text(tld, "localhost") {
        return CheckStep::Done(records_only(lookup_localhost(owner, query_type)));
    }
    if is_below_arpa(domain) {
        return CheckStep::Arpa;
    }
    if local_tld {
        return CheckStep::Done(result_for_local(domain, owner, query_type, ipv4, ipv6));
    }
    match rule {
        None => CheckStep::LookInCache(CheckChainDnsResult::default()),
        Some(found) => {
            let mut result = rule_result(&found, query_type);
            if result.query_filtered && apply_filter {
                let none: Vec<Record> = Vec::new();
                assert(record_views(none@) =~= Seq::empty());
                result.records = Some(none);
                return CheckStep::LookInCache(result);
            }
            CheckStep::AskUpstream(result)
        },
    }
}

/// The result for a name below `arpa`.
pub fn check_arpa(records: Vec<Record>) -> (r: CheckChainDnsResult)
    ensures
        r@ == only_records(record_views(records@)),
{
    records_only(records)
}

/// The records as they are shown.
pub open spec fn shown(records: Seq<RecordView>, filter: FilterResult, apply_filter: bool) -> Seq<
    RecordView,
> {
    if apply_filter {
        filtered(records, filter)
    } else {
        records
    }
}

fn show(records: Vec<Record>, filter: &FilterResult, apply_filter: bool) -> (r: Vec<Record>)
    ensures
        record_views(r@) == shown(record_views(records@), *filter, apply_filter),
{
    if apply_filter {
        filter_result(records, filter)
    } else {
        records
    }
}

/// Adds what the upstream server said to a check; a failure adds nothing.
pub fn check_upstream(
    result: CheckChainDnsResult,
    rule: &ResolutionRule,
    apply_filter: bool,
    reply: UpstreamReply,
) -> (r: CheckChainDnsResult)
    ensures
        r@ == (match reply@ {
            UpstreamView::Records(records) => (CheckView {
                records: Some(shown(records, rule.filter, apply_filter)),
                ..result@
            }),
            UpstreamView::Failure(_) => result@,
        }),
{
    let mut result = result;
    if let UpstreamReply::Records(records) = reply {
        result.records = Some(show(records, &rule.filter, apply_filter));
    }
    result
}

/// A result with what the cache says added to it.
pub open spec fn with_cache(
    result: CheckView,
    query_type: RecordType,
    apply_filter: bool,
    cached: Option<CachedView>,
) -> CheckView {
    match cached {
        None => result,
        Some(c) => {
            let turned_away = type_filtered(query_type, c.filter);
            CheckView {
                query_filtered: result.query_filtered || turned_away,
                rule_filter: if result.rule_filter is None {
                    Some(c.filter)
                } else {
                    result.rule_filter
                },
                cache_records: Some(
                    if turned_away && apply_filter {
                        Seq::empty()
                    } else {
                        shown(c.records, c.filter, apply_filter)
                    },
                ),
                ..result
            }
        },
    }
}

/// Adds what the cache says to a check.
pub fn check_cache(
    result: CheckChainDnsResult,
    query_type: RecordType,
    apply_filter: bool,
    cached: Option<CachedAnswer>,
) -> (r: CheckChainDnsResult)
    ensures
        r@ == with_cache(result@, query_type, apply_filter, opt_cached(cached)),
{
    let mut result = result;
    if let Some(answer) = cached {
        let turned_away: bool = is_type_filtered(query_type, &answer.filter);
        result.query_filtered = result.query_filtered || turned_away;
        if result.rule_filter.is_none() {
            result.rule_filter = Some(answer.filter);
        }
        if turned_away && apply_filter {
            let none: Vec<Record> = Vec::new();
            assert(record_views(none@) =~= Seq::empty());
            result.cache_records = Some(none);
        } else {
            result.cache_records = Some(show(answer.records, &answer.filter, apply_filter));
        }
    }
    result
}

/// What is to be done next for a refresh.
#[derive(Debug)]
pub enum RefreshStep {
    /// This is the result.
    Done(CheckChainDnsResult),
    /// What is cached is to be dropped; then the name below `arpa` is to be
    /// resolved, and its records are the result.
    DropThenArpa,
    /// What is cached is to be dropped; this is the result.
    DropThenDone(CheckChainDnsResult),
    /// The upstream server of the rule is to be asked.
    AskUpstream(CheckChainDnsResult),
}

pub enum RefreshStepView {
    Done(CheckView),
    DropThenArpa,
    DropThenDone(CheckView),
    AskUpstream(CheckView),
}

impl View for RefreshStep {
    type V = RefreshStepView;

    open spec fn view(&self) -> RefreshStepView {
        match *self {
            RefreshStep::Done(r) => RefreshStepView::Done(r@),
            RefreshStep::DropThenArpa => RefreshStepView::DropThenArpa,
            RefreshStep::DropThenDone(r) => RefreshStepView::DropThenDone(r@),
            RefreshStep::AskUpstream(r) => RefreshStepView::AskUpstream(r@),
        }
    }
}

/// Where a refresh starts, or why there is none: a redirected name is not
/// cached, and a name without a rule has no server to ask.
pub open spec fn refresh_step(
    raw: Seq<char>,
    name: Seq<char>,
    owner: Seq<char>,
    query_type: RecordType,
    redirected: bool,
    local_tld: bool,
    ipv4: Option<Ipv4Addr>,
    ipv6: Option<Ipv6Addr>,
    rule: Option<ResolutionRule>,
) -> Result<RefreshStepView, DnsErrorView> {
    let tld = last_label(name);
    if redirected {
        Err(DnsErrorView::RefreshRedirected(raw))
    } else if blocked_tld(tld) {
        Ok(RefreshStepView::Done(empty_check()))
    } else if tld == "localhost"@ {
        Ok(
            RefreshStepView::Done(
                only_records(
                    host_records(owner, Some(loopback_v4()), Some(loopback_v6()), query_type),
                ),
            ),
        )
    } else if below_arpa(name) {
        Ok(RefreshStepView::DropThenArpa)
    } else if local_tld {
        Ok(RefreshStepView::DropThenDone(local_result(name, owner, query_type, ipv4, ipv6)))
    } else {
        match rule {
            Some(r) => Ok(RefreshStepView::AskUpstream(under_rule(r, query_type))),
            None => Err(DnsErrorView::RefreshRequiresRule(raw)),
        }
    }
}

/// The view of a step or an error.
pub open spec fn refresh_view(r: Result<RefreshStep, DnsError>) -> Result<
    RefreshStepView,
    DnsErrorView,
> {
    match r {
        Ok(s) => Ok(s@),
        Err(e) => Err(e@),
    }
}

/// Starts a refresh.
pub fn refresh_cache_entry(
    domain: &PreprocessedDomain,
    owner: &str,
    query_type: RecordType,
    redirected: bool,
    local_tld: bool,
    ipv4: Option<Ipv4Addr>,
    ipv6: Option<Ipv6Addr>,
    rule: Option<ResolutionRule>,
) -> (r: Result<RefreshStep, DnsError>)
    ensures
        refresh_view(r) == refresh_step(
            domain.raw_text(),
            domain.name_text(),
            owner@,
            query_type,
            redirected,
            local_tld,
            ipv4,
            ipv6,
            rule,
        ),
{
    let tld = domain.tld();
    if redirected {
        return Err(DnsError::RefreshRedirected(domain.raw().to_owned()));
    }
    if is_blocked_tld(tld) {
        return Ok(RefreshStep::Done(CheckChainDnsResult::default()));
    }
    if same_text(tld, "localhost") {
        return Ok(RefreshStep::Done(records_only(lookup_localhost(owner, query_type))));
    }
    if is_below_arpa(domain) {
        return Ok(RefreshStep::DropThenArpa);
    }
    if local_tld {
        return Ok(RefreshStep::DropThenDone(result_for_local(domain, owner, query_type, ipv4, ipv6)));
    }
    match rule {
        Some(found) => Ok(RefreshStep::AskUpstream(rule_result(&found, query_type))),
        None => Err(DnsError::RefreshRequiresRule(domain.raw().to_owned())),
    }
}

/// What is to be done with the cache entry of a refreshed name.
#[derive(Debug)]
pub enum CacheChange {
    Drop,
    /// Put the item in; nothing is put in where there is none.
    Put(Option<CacheDNSItem>),
}

pub enum CacheChangeView {
    Drop,
    Put(Option<CacheItemView>),
}

impl View for CacheChange {
    type V = CacheChangeView;

    open spec fn view(&self) -> CacheChangeView {
        match *self {
            CacheChange::Drop => CacheChangeView::Drop,
            CacheChange::Put(item) => CacheChangeView::Put(opt_item(item)),
        }
    }
}

/// What follows from the upstream server's reply to a refresh: the result so
/// far and the change to the cache, or that the refresh failed.
pub open spec fn refresh_settled(
    result: CheckView,
    raw: Seq<char>,
    rule: ResolutionRule,
    query_type: RecordType,
    apply_filter: bool,
    reply: UpstreamView,
    negative_ttl: u32,
    now: u128,
) -> Result<(CheckView, CacheChangeView), DnsErrorView> {
    let turned_away = type_filtered(query_type, rule.filter);
    match reply {
        UpstreamView::Records(records) => Ok(
            (
                CheckView {
                    records: Some(shown(records, rule.filter, apply_filter)),
                    ..result
                },
                if turned_away {
                    CacheChangeView::Drop
                } else {
                    CacheChangeView::Put(
                        item_for(records, ResponseCode::NoError, rule, negative_ttl, now),
                    )
                },
            ),
        ),
        UpstreamView::Failure(code) => {
            let empty = CheckView { records: Some(Seq::empty()), ..result };
            if turned_away {
                Ok((empty, CacheChangeView::Drop))
            } else if negative_code(code) {
                Ok(
                    (
                        empty,
                        CacheChangeView::Put(item_for(Seq::empty(), code, rule, negative_ttl, now)),
                    ),
                )
            } else {
                Err(DnsErrorView::RefreshFailed(raw))
            }
        },
    }
}

/// The view of a settled refresh.
pub open spec fn settled_view(r: Result<(CheckChainDnsResult, CacheChange), DnsError>) -> Result<
    (CheckView, CacheChangeView),
    DnsErrorView,
> {
    match r {
        Ok((result, change)) => Ok((result@, change@)),
        Err(e) => Err(e@),
    }
}

/// Goes on with a refresh once the upstream server replied.
pub fn refresh_upstream(
    result: CheckChainDnsResult,
    domain: &PreprocessedDomain,
    rule: &ResolutionRule,
    query_type: RecordType,
    apply_filter: bool,
    reply: UpstreamReply,
    negative_ttl: u32,
    now: u128,
) -> (r: Result<(CheckChainDnsResult, CacheChange), DnsError>)
    ensures
        settled_view(r) == refresh_settled(
            result@,
            domain.raw_text(),
            *rule,
            query_type,
            apply_filter,
            reply@,
            negative_ttl,
            now,
        ),
{
    let mut result = result;
    let turned_away: bool = is_type_filtered(query_type, &rule.filter);
    match reply {
        UpstreamReply::Records(records) => {
            let change = if turned_away {
                CacheChange::Drop
            } else {
                CacheChange::Put(
                    item_under_rule(
                        copy_records(&records),
                        ResponseCode::NoError,
                        rule,
                        negative_ttl,
                        now,
                    ),
                )
            };
            result.records = Some(show(records, &rule.filter, apply_filter));
            Ok((result, change))
        },
        UpstreamReply::Failure(code) => {
            let none: Vec<Record> = Vec::new();
            assert(record_views(none@) =~= Seq::empty());
            result.records = Some(none);
            if turned_away {
                Ok((result, CacheChange::Drop))
            } else if code == ResponseCode::NXDomain || code == ResponseCode::NoError {
                let empty: Vec<Record> = Vec::new();
                assert(record_views(empty@) =~= Seq::empty());
                let item = item_under_rule(empty, code, rule, negative_ttl, now);
                Ok((result, CacheChange::Put(item)))
            } else {
                Err(DnsError::RefreshFailed(domain.raw().to_owned()))
            }
        },
    }
}

/// A check with the filter applied shows no record of a family that the rule
/// turns away.
pub proof fn law_applied_filter_hides_family(
    records: Seq<RecordView>,
    filter: FilterResult,
    i: int,
)
    requires
        0 <= i < shown(records, filter, true).len(),
    ensures
        filter is OnlyIPv4 ==> !(shown(records, filter, true)[i].data is AAAA),
        filter is OnlyIPv6 ==> !(shown(records, filter, true)[i].data is A),
{
    crate::dns::filter::law_filter_keeps_family_out(records, filter, i);
}

/// Whether the filter turns the query away is shown even where the filter is
/// not applied.
pub proof fn law_filtered_flag_is_shown(
    rule: ResolutionRule,
    query_type: RecordType,
    apply_filter: bool,
    cached: Option<CachedView>,
)
    requires
        type_filtered(query_type, rule.filter),
    ensures
        with_cache(under_rule(rule, query_type), query_type, apply_filter, cached).query_filtered,
{
}

/// A query that the rule turns away is never put into the cache by a refresh.
pub proof fn law_turned_away_is_dropped(
    result: CheckView,
    raw: Seq<char>,
    rule: ResolutionRule,
    query_type: RecordType,
    apply_filter: bool,
    reply: UpstreamView,
    negative_ttl: u32,
    now: u128,
)
    requires
        type_filtered(query_type, rule.filter),
    ensures
        refresh_settled(
            result,
            raw,
            rule,
            query_type,
            apply_filter,
            reply,
            negative_ttl,
            now,
        ) matches Ok((_, change)) && change is Drop,
{
}

/// A check starts where a query does: a redirect is shown with its id and its
/// records before anything else; what the router answers itself is shown with
/// the very records of that answer, and nothing is asked for; names below
/// `arpa` are looked at apart. Any other name falls to its rule, which is shown
/// with its filter, and whose server is asked unless the filter is applied and
/// turns the query away; without a rule nothing is known of it.
pub proof fn law_check_follows_the_query(
    name: Seq<char>,
    owner: Seq<char>,
    query_type: RecordType,
    apply_filter: bool,
    redirect: Option<RedirectAnswerView>,
    local_tld: bool,
    ipv4: Option<Ipv4Addr>,
    ipv6: Option<Ipv6Addr>,
    rule: Option<ResolutionRule>,
)
    ensures
        ({
            let step = check_step(
                name,
                owner,
                query_type,
                apply_filter,
                redirect,
                local_tld,
                ipv4,
                ipv6,
                rule,
            );
            let tld = last_label(name);
            let reserved = tld == "invalid"@ || tld == "test"@ || tld == "onion"@ || tld
                == "localhost"@;
            match redirect {
                Some(answer) => {
                    &&& step matches CheckStepView::LookInCache(shown)
                    &&& shown.redirect_id == answer.redirect_id
                    &&& shown.dynamic_redirect_source == answer.dynamic_redirect_source
                    &&& shown.records == Some(answer.records)
                    &&& shown.rule_id is None && shown.rule_filter is None
                    &&& !shown.query_filtered && shown.cache_records is None
                },
                None => if !reserved && ".arpa"@.is_suffix_of(name) {
                    step == CheckStepView::Arpa
                } else {
                    match own_answer(name, owner, query_type, local_tld, ipv4, ipv6) {
                        Some((records, _)) => {
                            &&& step matches CheckStepView::Done(shown)
                            &&& shown.records is None ==> records.len() == 0
                            &&& shown.records is Some ==> shown.records == Some(records)
                            &&& shown.redirect_id is None && shown.rule_id is None
                            &&& shown.rule_filter is None && shown.cache_records is None
                        },
                        None => match rule {
                            Some(r) => {
                                let away = type_filtered(query_type, r.filter);
                                &&& away && apply_filter ==> (step matches
                                    CheckStepView::LookInCache(shown) && shown.records == Some(
                                    Seq::<RecordView>::empty(),
                                ) && shown.rule_id == Some(r.config_id) && shown.rule_filter
                                    == Some(r.filter) && shown.query_filtered)
                                &&& !(away && apply_filter) ==> (step matches
                                    CheckStepView::AskUpstream(shown) && shown.records is None
                                    && shown.rule_id == Some(r.config_id) && shown.rule_filter
                                    == Some(r.filter) && shown.query_filtered == away)
                            },
                            None => {
                                &&& step matches CheckStepView::LookInCache(shown)
                                &&& shown.records is None && shown.rule_id is None
                                &&& shown.redirect_id is None && shown.rule_filter is None
                            },
                        },
                    }
                },
            }
        }),
{
    crate::dns::resolve::law_reserved_names(name, owner, query_type, local_tld, ipv4, ipv6);
}

/// What the cache holds is added beside what is shown already: the records,
/// filtered only where the filter is applied, and the filter where no rule was
/// found. Nothing that is shown already is taken back.
pub proof fn law_cache_is_shown_beside(
    result: CheckView,
    query_type: RecordType,
    apply_filter: bool,
    c: CachedView,
)
    ensures
        with_cache(result, query_type, apply_filter, None) == result,
        ({
            let shown = with_cache(result, query_type, apply_filter, Some(c));
            let away = type_filtered(query_type, c.filter);
            &&& shown.records == result.records
            &&& shown.redirect_id == result.redirect_id
            &&& shown.dynamic_redirect_source == result.dynamic_redirect_source
            &&& shown.rule_id == result.rule_id
            &&& shown.query_filtered <==> result.query_filtered || away
            &&& result.rule_filter is Some ==> shown.rule_filter == result.rule_filter
            &&& result.rule_filter is None ==> shown.rule_filter == Some(c.filter)
            &&& !apply_filter ==> shown.cache_records == Some(c.records)
            &&& apply_filter && away ==> shown.cache_records == Some(Seq::<RecordView>::empty())
            &&& apply_filter && !away ==> shown.cache_records == Some(
                filtered(c.records, c.filter),
            )
        }),
{
}

/// A refresh is refused for a redirected name and for one without a rule. The
/// router's own names are shown with the records of its own answers, and what
/// the cache may hold of one below `arpa` or of a local one is dropped; for any
/// other name the server of its rule is asked.
pub proof fn law_refresh_follows_the_query(
    raw: Seq<char>,
    name: Seq<char>,
    owner: Seq<char>,
    query_type: RecordType,
    local_tld: bool,
    ipv4: Option<Ipv4Addr>,
    ipv6: Option<Ipv6Addr>,
    rule: Option<ResolutionRule>,
)
    ensures
        refresh_step(raw, name, owner, query_type, true, local_tld, ipv4, ipv6, rule) == Err::<
            RefreshStepView,
            DnsErrorView,
        >(DnsErrorView::RefreshRedirected(raw)),
        ({
            let step = refresh_step(
                raw,
                name,
                owner,
                query_type,
                false,
                local_tld,
                ipv4,
                ipv6,
                rule,
            );
            let tld = last_label(name);
            let reserved = tld == "invalid"@ || tld == "test"@ || tld == "onion"@ || tld
                == "localhost"@;
            let arpa = !reserved && ".arpa"@.is_suffix_of(name);
            let own = own_answer(name, owner, query_type, local_tld, ipv4, ipv6);
            &&& reserved ==> step is Ok && step->Ok_0 is Done
            &&& arpa ==> step is Ok && step->Ok_0 is DropThenArpa
            &&& !reserved && !arpa && local_tld ==> step is Ok && step->Ok_0 is DropThenDone
            &&& step matches Ok(RefreshStepView::Done(shown)) ==> (shown.records is Some ==> (own
                matches Some((records, _)) && shown.records == Some(records)))
            &&& step matches Ok(RefreshStepView::DropThenDone(shown)) ==> (shown.records is Some
                ==> (own matches Some((records, _)) && shown.records == Some(records)))
            &&& !reserved && !arpa && !local_tld ==> match rule {
                Some(r) => step matches Ok(RefreshStepView::AskUpstream(shown)) && shown.rule_id
                    == Some(r.config_id) && shown.rule_filter == Some(r.filter),
                None => step == Err::<RefreshStepView, DnsErrorView>(
                    DnsErrorView::RefreshRequiresRule(raw),
                ),
            }
        }),
{
    crate::dns::resolve::law_reserved_names(name, owner, query_type, local_tld, ipv4, ipv6);
}

/// A refresh that the filter does not turn away caches what came as a query
/// would have; a failure of the server is one of the refresh. What came is
/// shown, filtered only where the filter is applied.
pub proof fn law_refresh_caches_as_a_query(
    result: CheckView,
    raw: Seq<char>,
    rule: ResolutionRule,
    query_type: RecordType,
    apply_filter: bool,
    reply: UpstreamView,
    negative_ttl: u32,
    now: u128,
)
    requires
        !type_filtered(query_type, rule.filter),
    ensures
        ({
            let settled = refresh_settled(
                result,
                raw,
                rule,
                query_type,
                apply_filter,
                reply,
                negative_ttl,
                now,
            );
            match settled {
                Ok((shown, change)) => {
                    &&& change == CacheChangeView::Put(
                        crate::dns::resolve::cached_of_upstream(rule, reply, negative_ttl, now),
                    )
                    &&& reply matches UpstreamView::Records(records) ==> shown.records == Some(
                        if apply_filter {
                            filtered(records, rule.filter)
                        } else {
                            records
                        },
                    )
                    &&& reply is Failure ==> shown.records == Some(Seq::<RecordView>::empty())
                    &&& shown.rule_id == result.rule_id
                },
                Err(e) => e == DnsErrorView::RefreshFailed(raw) && (reply matches
                    UpstreamView::Failure(code) && code != ResponseCode::NXDomain && code
                    != ResponseCode::NoError),
            }
        }),
        reply matches UpstreamView::Failure(code) ==> code != ResponseCode::NXDomain && code
            != ResponseCode::NoError ==> refresh_settled(
            result,
            raw,
            rule,
            query_type,
            apply_filter,
            reply,
            negative_ttl,
            now,
        ) is Err,
{
}

} // verus!

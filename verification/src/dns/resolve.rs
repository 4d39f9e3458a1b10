//! Which source answers a query: a redirect, the router itself, the cache or
//! the upstream server of a rule.
use vstd::prelude::*;
use crate::dns::cache::{
    item_for, item_under_rule, opt_item, CacheDNSItem, CachedAnswer, CachedView, ResolutionRule,
};
use crate::dns::domain::{arpa_second_label, last_label, PreprocessedDomain};
use crate::dns::filter::{filter_result, filtered, is_type_filtered, type_filtered};
use crate::dns::local::{
    host_records, local_domain_answer, lookup_localhost, loopback_v4, loopback_v6,
    resolve_local_domain, AnswerView,
};
use crate::dns::types::{
    copy_records, record_views, DnsOutcome, Record, RecordType, RecordView, ResponseCode,
};
use crate::net::{IpAddr, Ipv4Addr, Ipv6Addr};
use crate::text::{has_suffix, same_text, without_suffix};

verus! {

/// How a name below `arpa` is answered.
#[derive(Debug, Clone, Copy, PartialEq, Eq, Structural)]
pub enum ArpaPlan {
    /// Without records.
    Empty(DnsOutcome),
    /// With the announcement of encrypted resolvers.
    Announce,
    /// As a host on the LAN.
    Home,
    /// As a reverse query.
    Reverse,
}

/// How a name below `arpa` is answered, by its second label.
pub open spec fn arpa_plan(name: Seq<char>, query_type: RecordType) -> ArpaPlan {
    let front = without_suffix(name, ".arpa"@);
    let label = arpa_second_label(name);
    if front is None || label is None {
        ArpaPlan::Empty(DnsOutcome::NxDomain)
    } else if label->0 == "resolver"@ && (front->0 == "resolver"@ || front->0 == "_dns.resolver"@) {
        if query_type is SVCB && front->0 == "_dns.resolver"@ {
            ArpaPlan::Announce
        } else {
            ArpaPlan::Empty(DnsOutcome::Local)
        }
    } else if label->0 == "home"@ {
        ArpaPlan::Home
    } else if label->0 == "in-addr"@ || label->0 == "ip6"@ {
        ArpaPlan::Reverse
    } else if label->0 == "ipv4only"@ && front->0 == "ipv4only"@ {
        ArpaPlan::Empty(DnsOutcome::Local)
    } else {
        ArpaPlan::Empty(DnsOutcome::NxDomain)
    }
}

pub fn resolve_arpa(domain: &PreprocessedDomain, query_type: RecordType) -> (r: ArpaPlan)
    ensures
        r == arpa_plan(domain.name_text(), query_type),
{
    let front = match domain.arpa_prefix() {
        Some(front) => front,
        None => {
            return ArpaPlan::Empty(DnsOutcome::NxDomain);
        },
    };
    let label = match domain.arpa_sld() {
        Some(label) => label,
        None => {
            return ArpaPlan::Empty(DnsOutcome::NxDomain);
        },
    };
    if same_text(label, "resolver") && (same_text(front, "resolver") || same_text(
        front,
        "_dns.resolver",
    )) {
        if query_type == RecordType::SVCB && same_text(front, "_dns.resolver") {
            return ArpaPlan::Announce;
        }
        return ArpaPlan::Empty(DnsOutcome::Local);
    }
    if same_text(label, "home") {
        return ArpaPlan::Home;
    }
    if same_text(label, "in-addr") || same_text(label, "ip6") {
        return ArpaPlan::Reverse;
    }
    if same_text(label, "ipv4only") && same_text(front, "ipv4only") {
        return ArpaPlan::Empty(DnsOutcome::Local);
    }
    ArpaPlan::Empty(DnsOutcome::NxDomain)
}

/// The address that a reverse query is for, from its family and bits.
pub open spec fn address_of(parsed: Option<(bool, u128)>) -> Option<IpAddr> {
    match parsed {
        Some((true, bits)) => Some(IpAddr::V4(Ipv4Addr { bits: (bits % 0x1_0000_0000) as u32 })),
        Some((false, bits)) => Some(IpAddr::V6(Ipv6Addr { bits })),
        None => None,
    }
}

/// The address that a reverse query is for, from its family and bits.
pub fn address_from_parts(parsed: Option<(bool, u128)>) -> (r: Option<IpAddr>)
    ensures
        r == address_of(parsed),
{
    match parsed {
        Some((v4, bits)) => if v4 {
            Some(IpAddr::V4(Ipv4Addr { bits: (bits % 0x1_0000_0000) as u32 }))
        } else {
            Some(IpAddr::V6(Ipv6Addr { bits }))
        },
        None => None,
    }
}

/// Last labels that are never looked up.
pub open spec fn blocked_tld(tld: Seq<char>) -> bool {
    tld == "invalid"@ || tld == "test"@ || tld == "onion"@
}

pub fn is_blocked_tld(tld: &str) -> (r: bool)
    ensures
        r == blocked_tld(tld@),
{
    same_text(tld, "invalid") || same_text(tld, "test") || same_text(tld, "onion")
}

/// Whether a name lies below `arpa`.
pub open spec fn below_arpa(name: Seq<char>) -> bool {
    ".arpa"@.is_suffix_of(name)
}

pub fn is_below_arpa(domain: &PreprocessedDomain) -> (r: bool)
    ensures
        r == below_arpa(domain.name_text()),
{
    has_suffix(domain.name(), ".arpa")
}

/// The router's own answer to a query that no redirect answers; none where the
/// cache or an upstream server is asked.
pub open spec fn own_answer(
    name: Seq<char>,
    owner: Seq<char>,
    query_type: RecordType,
    local_tld: bool,
    ipv4: Option<Ipv4Addr>,
    ipv6: Option<Ipv6Addr>,
) -> Option<AnswerView> {
    let tld = last_label(name);
    if blocked_tld(tld) {
        Some((Seq::empty(), DnsOutcome::NxDomain))
    } else if tld == "localhost"@ {
        Some(
            (
                host_records(owner, Some(loopback_v4()), Some(loopback_v6()), query_type),
                DnsOutcome::Local,
            ),
        )
    } else if local_tld {
        Some(local_domain_answer(name, owner, ipv4, ipv6, query_type))
    } else {
        None
    }
}

/// The view of an optional answer.
pub open spec fn opt_answer(o: Option<(Vec<Record>, DnsOutcome)>) -> Option<AnswerView> {
    match o {
        Some(a) => Some((record_views(a.0@), a.1)),
        None => None,
    }
}

/// The answer to a query for a name that is not below `arpa`: that of the
/// redirect where there is one, else the router's own, else none, and the
/// cache or an upstream server is to be asked. Records are given under `owner`,
/// and the addresses are those registered for the host part of the name.
pub fn resolve_forward(
    domain: &PreprocessedDomain,
    owner: &str,
    query_type: RecordType,
    redirect: Option<(Vec<Record>, DnsOutcome)>,
    local_tld: bool,
    ipv4: Option<Ipv4Addr>,
    ipv6: Option<Ipv6Addr>,
) -> (r: Option<(Vec<Record>, DnsOutcome)>)
    ensures
        opt_answer(r) == (match opt_answer(redirect) {
            Some(answer) => Some(answer),
            None => own_answer(
                domain.name_text(),
                owner@,
                query_type,
                local_tld,
                ipv4,
                ipv6,
            ),
        }),
{
    if redirect.is_some() {
        return redirect;
    }
    let tld = domain.tld();
    if is_blocked_tld(tld) {
        let none: Vec<Record> = Vec::new();
        assert(record_views(none@) =~= Seq::empty());
        return Some((none, DnsOutcome::NxDomain));
    }
    if same_text(tld, "localhost") {
        return Some((lookup_localhost(owner, query_type), DnsOutcome::Local));
    }
    if local_tld {
        return Some(resolve_local_domain(domain, owner, ipv4, ipv6, query_type));
    }
    None
}

/// The answer that the cache gives.
pub open spec fn answer_of_cache(query_type: RecordType, cached: CachedView) -> AnswerView {
    if type_filtered(query_type, cached.filter) {
        (
            Seq::empty(),
            if cached.response_code is NXDomain {
                DnsOutcome::NxDomain
            } else {
                DnsOutcome::Filter
            },
        )
    } else {
        (
            filtered(cached.records, cached.filter),
            if cached.response_code is NXDomain {
                DnsOutcome::NxDomain
            } else {
                DnsOutcome::Hit
            },
        )
    }
}

/// What follows from what the cache and the rules say.
#[derive(Debug)]
pub enum CacheOrUpstream {
    /// The answer.
    Answer(Vec<Record>, DnsOutcome),
    /// The upstream server of the rule is to be asked.
    Ask(ResolutionRule),
}

pub enum CacheOrUpstreamView {
    Answer(Seq<RecordView>, DnsOutcome),
    Ask(ResolutionRule),
}

impl View for CacheOrUpstream {
    type V = CacheOrUpstreamView;

    open spec fn view(&self) -> CacheOrUpstreamView {
        match *self {
            CacheOrUpstream::Answer(records, outcome) => CacheOrUpstreamView::Answer(
                record_views(records@),
                outcome,
            ),
            CacheOrUpstream::Ask(rule) => CacheOrUpstreamView::Ask(rule),
        }
    }
}

/// The cache goes before the rule that the name falls under; a query that the
/// rule's filter turns away is not sent on.
pub open spec fn cache_or_upstream(
    query_type: RecordType,
    cached: Option<CachedView>,
    rule: Option<ResolutionRule>,
) -> CacheOrUpstreamView {
    match (cached, rule) {
        (Some(c), _) => CacheOrUpstreamView::Answer(
            answer_of_cache(query_type, c).0,
            answer_of_cache(query_type, c).1,
        ),
        (None, None) => CacheOrUpstreamView::Answer(Seq::empty(), DnsOutcome::Normal),
        (None, Some(rule)) => if type_filtered(query_type, rule.filter) {
            CacheOrUpstreamView::Answer(Seq::empty(), DnsOutcome::Filter)
        } else {
            CacheOrUpstreamView::Ask(rule)
        },
    }
}

pub fn resolve_from_cache_or_upstream(
    query_type: RecordType,
    cached: Option<CachedAnswer>,
    rule: Option<ResolutionRule>,
) -> (r: CacheOrUpstream)
    ensures
        r@ == cache_or_upstream(query_type, crate::dns::cache::opt_cached(cached), rule),
{
    let none: Vec<Record> = Vec::new();
    assert(record_views(none@) =~= Seq::empty());
    if let Some(answer) = cached {
        let negative: bool = answer.response_code == ResponseCode::NXDomain;
        if is_type_filtered(query_type, &answer.filter) {
            let outcome = if negative {
                DnsOutcome::NxDomain
            } else {
                DnsOutcome::Filter
            };
            return CacheOrUpstream::Answer(none, outcome);
        }
        let outcome = if negative {
            DnsOutcome::NxDomain
        } else {
            DnsOutcome::Hit
        };
        return CacheOrUpstream::Answer(filter_result(answer.records, &answer.filter), outcome);
    }
    match rule {
        Some(found) => if is_type_filtered(query_type, &found.filter) {
            CacheOrUpstream::Answer(none, DnsOutcome::Filter)
        } else {
            CacheOrUpstream::Ask(found)
        },
        None => CacheOrUpstream::Answer(none, DnsOutcome::Normal),
    }
}

/// What an upstream server came back with: records, or a code in place of them.
#[derive(Debug)]
pub enum UpstreamReply {
    Records(Vec<Record>),
    Failure(ResponseCode),
}

pub enum UpstreamView {
    Records(Seq<RecordView>),
    Failure(ResponseCode),
}

impl View for UpstreamReply {
    type V = UpstreamView;

    open spec fn view(&self) -> UpstreamView {
        match *self {
            UpstreamReply::Records(records) => UpstreamView::Records(record_views(records@)),
            UpstreamReply::Failure(code) => UpstreamView::Failure(code),
        }
    }
}

/// Whether a failure says something about the name that can be cached: that it
/// does not exist, or has no such record.
pub open spec fn negative_code(code: ResponseCode) -> bool {
    code is NXDomain || code is NoError
}

/// The answer to the client.
pub open spec fn answer_of_upstream(rule: ResolutionRule, reply: UpstreamView) -> AnswerView {
    match reply {
        UpstreamView::Records(records) => (filtered(records, rule.filter), DnsOutcome::Normal),
        UpstreamView::Failure(ResponseCode::NXDomain) => (Seq::empty(), DnsOutcome::NxDomain),
        UpstreamView::Failure(ResponseCode::NoError) => (Seq::empty(), DnsOutcome::Normal),
        UpstreamView::Failure(_) => (Seq::empty(), DnsOutcome::Error),
    }
}

/// What goes into the cache: the records as they came, or the negative answer;
/// another failure is not cached.
pub open spec fn cached_of_upstream(
    rule: ResolutionRule,
    reply: UpstreamView,
    negative_ttl: u32,
    now: u128,
) -> Option<crate::dns::cache::CacheItemView> {
    match reply {
        UpstreamView::Records(records) => item_for(
            records,
            ResponseCode::NoError,
            rule,
            negative_ttl,
            now,
        ),
        UpstreamView::Failure(code) => if negative_code(code) {
            item_for(Seq::empty(), code, rule, negative_ttl, now)
        } else {
            None
        },
    }
}

/// What follows from the reply of an upstream server: what goes into the
/// cache, and the answer to the client.
pub fn settle_upstream(
    rule: &ResolutionRule,
    reply: UpstreamReply,
    negative_ttl: u32,
    now: u128,
) -> (r: (Option<CacheDNSItem>, Vec<Record>, DnsOutcome))
    ensures
        opt_item(r.0) == cached_of_upstream(*rule, reply@, negative_ttl, now),
        (record_views(r.1@), r.2) == answer_of_upstream(*rule, reply@),
{
    match reply {
        UpstreamReply::Records(records) => {
            let item = item_under_rule(
                copy_records(&records),
                ResponseCode::NoError,
                rule,
                negative_ttl,
                now,
            );
            (item, filter_result(records, &rule.filter), DnsOutcome::Normal)
        },
        UpstreamReply::Failure(code) => {
            let none: Vec<Record> = Vec::new();
            assert(record_views(none@) =~= Seq::empty());
            let outcome = match code {
                ResponseCode::NXDomain => DnsOutcome::NxDomain,
                ResponseCode::NoError => DnsOutcome::Normal,
                _ => DnsOutcome::Error,
            };
            if code == ResponseCode::NXDomain || code == ResponseCode::NoError {
                let empty: Vec<Record> = Vec::new();
                assert(record_views(empty@) =~= Seq::empty());
                (item_under_rule(empty, code, rule, negative_ttl, now), none, outcome)
            } else {
                (None, none, outcome)
            }
        },
    }
}

/// A name under `invalid`, `test`, `onion` or `localhost`, or under a local
/// domain, never leaves the router.
pub proof fn law_own_names_stay_home(
    name: Seq<char>,
    owner: Seq<char>,
    query_type: RecordType,
    local_tld: bool,
    ipv4: Option<Ipv4Addr>,
    ipv6: Option<Ipv6Addr>,
)
    ensures
        own_answer(name, owner, query_type, local_tld, ipv4, ipv6) is Some <==> (blocked_tld(
            last_label(name),
        ) || last_label(name) == "localhost"@ || local_tld),
{
}

/// Whoever asks again while the answer is fresh gets from the cache what the
/// upstream server gave, with the shortest of its times.
pub proof fn law_cache_repeats_upstream(
    query_type: RecordType,
    rule: ResolutionRule,
    records: Seq<RecordView>,
    negative_ttl: u32,
    now: u128,
)
    requires
        cached_of_upstream(rule, UpstreamView::Records(records), negative_ttl, now) is Some,
        !type_filtered(query_type, rule.filter),
    ensures
        ({
            let item = cached_of_upstream(
                rule,
                UpstreamView::Records(records),
                negative_ttl,
                now,
            )->0;
            let again = crate::dns::cache::cached_answer(item, now);
            let ttl = crate::dns::cache::shortest_ttl(records, negative_ttl);
            &&& again is Some
            &&& answer_of_cache(query_type, again->0) == (
                filtered(crate::dns::cache::with_ttl(records, ttl), rule.filter),
                DnsOutcome::Hit,
            )
        }),
{
}

/// A name that an upstream server says does not exist is answered so from the
/// cache too, for as long as negative answers hold.
pub proof fn law_negative_answer_cached(
    query_type: RecordType,
    rule: ResolutionRule,
    negative_ttl: u32,
    now: u128,
)
    requires
        negative_ttl > 0,
    ensures
        ({
            let reply = UpstreamView::Failure(ResponseCode::NXDomain);
            let item = cached_of_upstream(rule, reply, negative_ttl, now);
            let again = crate::dns::cache::cached_answer(item->0, now);
            &&& item is Some
            &&& again is Some
            &&& answer_of_cache(query_type, again->0).1 is NxDomain
            &&& answer_of_cache(query_type, again->0).0 == answer_of_upstream(rule, reply).0
            &&& answer_of_upstream(rule, reply).1 is NxDomain
        }),
{
    let reply = UpstreamView::Failure(ResponseCode::NXDomain);
    let item = cached_of_upstream(rule, reply, negative_ttl, now);
    let again = crate::dns::cache::cached_answer(item->0, now);
    assert(again->0.records =~= Seq::empty());
    assert(filtered(again->0.records, rule.filter) =~= Seq::empty());
}

/// A failure that says nothing about the name is not cached.
pub proof fn law_other_failures_not_cached(
    rule: ResolutionRule,
    code: ResponseCode,
    negative_ttl: u32,
    now: u128,
)
    requires
        !(code is NXDomain),
        !(code is NoError),
    ensures
        cached_of_upstream(rule, UpstreamView::Failure(code), negative_ttl, now) is None,
        answer_of_upstream(rule, UpstreamView::Failure(code)).1 is Error,
{
}

/// What is not below `arpa` is not there. Below it the label in front decides:
/// hosts are those under `home`, and reverse queries those under `in-addr` and
/// `ip6`. Under `resolver` there are that name and `_dns`, where queries for
/// it get the announcement; `ipv4only` is there alone, and nothing else is.
pub proof fn law_arpa_plans(
    front: Seq<char>,
    label: Seq<char>,
    dotted: bool,
    query_type: RecordType,
)
    requires
        !label.contains('.'),
    ensures
        ({
            let stem = if dotted {
                front.push('.') + label
            } else {
                label
            };
            let plan = arpa_plan(stem + ".arpa"@, query_type);
            if label == "home"@ {
                plan == ArpaPlan::Home
            } else if label == "in-addr"@ || label == "ip6"@ {
                plan == ArpaPlan::Reverse
            } else if label == "resolver"@ && dotted && front == "_dns"@ && query_type
                == RecordType::SVCB {
                plan == ArpaPlan::Announce
            } else if label == "resolver"@ && (!dotted || front == "_dns"@) {
                plan == ArpaPlan::Empty(DnsOutcome::Local)
            } else if label == "ipv4only"@ && !dotted {
                plan == ArpaPlan::Empty(DnsOutcome::Local)
            } else {
                plan == ArpaPlan::Empty(DnsOutcome::NxDomain)
            }
        }),
        !".arpa"@.is_suffix_of(front) ==> arpa_plan(front, query_type) == ArpaPlan::Empty(
            DnsOutcome::NxDomain,
        ),
{
    let stem = if dotted {
        front.push('.') + label
    } else {
        label
    };
    lemma_below_arpa(front, label, dotted);
    lemma_arpa_labels();
    if label == "resolver"@ {
        assert(stem == "_dns.resolver"@ <==> dotted && front == "_dns"@) by {
            reveal_strlit("_dns");
            reveal_strlit("_dns.resolver");
            reveal_strlit("resolver");
            if dotted && stem == "_dns.resolver"@ {
                assert(front =~= stem.take(4));
                assert(stem.take(4) =~= "_dns"@);
            }
            if dotted && front == "_dns"@ {
                assert(stem =~= "_dns.resolver"@);
            }
        }
    }
}

proof fn lemma_arpa_labels()
    ensures
        "home"@ != "resolver"@,
        "in-addr"@ != "resolver"@,
        "ip6"@ != "resolver"@,
        "ipv4only"@ != "resolver"@,
        "home"@ != "ipv4only"@,
        "in-addr"@ != "ipv4only"@,
        "ip6"@ != "ipv4only"@,
        "in-addr"@ != "home"@,
        "ip6"@ != "home"@,
{
    reveal_strlit("home");
    reveal_strlit("in-addr");
    reveal_strlit("ip6");
    reveal_strlit("resolver");
    reveal_strlit("ipv4only");
    assert("resolver"@[0] == 'r' && "ipv4only"@[0] == 'i');
    assert("home"@.len() == 4 && "in-addr"@.len() == 7 && "ip6"@.len() == 3);
}

proof fn lemma_below_arpa(front: Seq<char>, label: Seq<char>, dotted: bool)
    requires
        !label.contains('.'),
    ensures
        ({
            let stem = if dotted {
                front.push('.') + label
            } else {
                label
            };
            &&& without_suffix(stem + ".arpa"@, ".arpa"@) == Some(stem)
            &&& arpa_second_label(stem + ".arpa"@) == Some(label)
        }),
{
    reveal_strlit(".arpa");
    reveal_strlit("arpa");
    let stem = if dotted {
        front.push('.') + label
    } else {
        label
    };
    let name = stem + ".arpa"@;
    assert(name.subrange(name.len() - 5, name.len() as int) =~= ".arpa"@);
    assert(name.take(name.len() - 5) =~= stem);
    assert(name =~= stem.push('.') + "arpa"@);
    crate::dns::domain::law_last_labels(front, label, "arpa"@);
}

/// Names under `invalid`, `test` and `onion` do not exist, and those under
/// `localhost` lead to the loopback address of the family asked for, whatever
/// domains are local and whatever is registered.
pub proof fn law_reserved_names(
    name: Seq<char>,
    owner: Seq<char>,
    query_type: RecordType,
    local_tld: bool,
    ipv4: Option<Ipv4Addr>,
    ipv6: Option<Ipv6Addr>,
)
    ensures
        ({
            let tld = last_label(name);
            let answer = own_answer(name, owner, query_type, local_tld, ipv4, ipv6);
            &&& tld == "invalid"@ || tld == "test"@ || tld == "onion"@ ==> answer == Some(
                (Seq::<RecordView>::empty(), DnsOutcome::NxDomain),
            )
            &&& tld == "localhost"@ ==> answer == Some(
                (
                    host_records(
                        owner,
                        Some(Ipv4Addr { bits: 0x7f00_0001 }),
                        Some(Ipv6Addr { bits: 1 }),
                        query_type,
                    ),
                    DnsOutcome::Local,
                ),
            )
            &&& tld != "invalid"@ && tld != "test"@ && tld != "onion"@ && tld != "localhost"@
                ==> answer == if local_tld {
                Some(local_domain_answer(name, owner, ipv4, ipv6, query_type))
            } else {
                None
            }
        }),
{
    reveal_strlit("invalid");
    reveal_strlit("test");
    reveal_strlit("onion");
    reveal_strlit("localhost");
    assert("invalid"@.len() == 7 && "test"@.len() == 4 && "onion"@.len() == 5
        && "localhost"@.len() == 9);
}

/// What is in the cache answers, filtered by the rule that it was made under,
/// whatever rule is for the name now. Without it the rule's server is asked,
/// unless the filter turns the query away; without a rule there is no answer.
pub proof fn law_cache_then_rule(
    query_type: RecordType,
    cached: Option<CachedView>,
    rule: Option<ResolutionRule>,
)
    ensures
        cached matches Some(c) ==> (cache_or_upstream(query_type, cached, rule) matches
            CacheOrUpstreamView::Answer(records, outcome) && {
            &&& c.response_code == ResponseCode::NXDomain ==> outcome == DnsOutcome::NxDomain
            &&& type_filtered(query_type, c.filter) ==> records.len() == 0
            &&& !type_filtered(query_type, c.filter) ==> records == filtered(c.records, c.filter)
            &&& c.response_code != ResponseCode::NXDomain && type_filtered(query_type, c.filter)
                ==> outcome == DnsOutcome::Filter
            &&& c.response_code != ResponseCode::NXDomain && !type_filtered(query_type, c.filter)
                ==> outcome == DnsOutcome::Hit
        }),
        cached is None && rule is None ==> cache_or_upstream(query_type, cached, rule)
            == CacheOrUpstreamView::Answer(Seq::empty(), DnsOutcome::Normal),
        cached is None ==> (rule matches Some(r) ==> cache_or_upstream(query_type, cached, rule)
            == if type_filtered(query_type, r.filter) {
            CacheOrUpstreamView::Answer(Seq::empty(), DnsOutcome::Filter)
        } else {
            CacheOrUpstreamView::Ask(r)
        }),
{
}

/// Records from an upstream server are passed on as the rule's filter lets
/// them, and a failure without records: that the name does not exist, that it
/// has no such record, or that the server failed.
pub proof fn law_upstream_is_passed_on(rule: ResolutionRule, reply: UpstreamView)
    ensures
        ({
            let answer = answer_of_upstream(rule, reply);
            match reply {
                UpstreamView::Records(records) => answer.0 == filtered(records, rule.filter)
                    && answer.1 == DnsOutcome::Normal,
                UpstreamView::Failure(code) => {
                    &&& answer.0.len() == 0
                    &&& code == ResponseCode::NXDomain <==> answer.1 == DnsOutcome::NxDomain
                    &&& code == ResponseCode::NoError <==> answer.1 == DnsOutcome::Normal
                    &&& code != ResponseCode::NXDomain && code != ResponseCode::NoError <==> answer.1
                        == DnsOutcome::Error
                },
            }
        }),
{
}

/// What goes into the cache is what the server said, before any filter: the
/// records, or the code that there are none, for as long as they hold.
pub proof fn law_cache_keeps_what_came(
    rule: ResolutionRule,
    reply: UpstreamView,
    negative_ttl: u32,
    now: u128,
)
    ensures
        match reply {
            UpstreamView::Records(records) => cached_of_upstream(rule, reply, negative_ttl, now)
                == item_for(records, ResponseCode::NoError, rule, negative_ttl, now),
            UpstreamView::Failure(code) => if code == ResponseCode::NXDomain || code
                == ResponseCode::NoError {
                cached_of_upstream(rule, reply, negative_ttl, now) == item_for(
                    Seq::empty(),
                    code,
                    rule,
                    negative_ttl,
                    now,
                )
            } else {
                cached_of_upstream(rule, reply, negative_ttl, now) is None
            },
        },
{
}

/// The address of a reverse query is of the family that was found, with the
/// bits that were found.
pub proof fn law_reverse_address(bits: u128)
    ensures
        bits <= u32::MAX ==> (address_of(Some((true, bits))) matches Some(IpAddr::V4(ip))
            && ip.bits == bits),
        address_of(Some((false, bits))) matches Some(IpAddr::V6(ip)) && ip.bits == bits,
        address_of(None) is None,
{
}

} // verus!

//! Answers that the router gives itself: redirects, the loopback names, hosts
//! on the LAN and the announcement of encrypted resolvers.
use vstd::prelude::*;
use crate::dns::domain::{host_in_front_of, last_label, PreprocessedDomain};
use crate::dns::outside::{dns_name_text, parse_dns_name, parse_utf8_name, utf8_name_text};
use crate::dns::types::{
    address_v4_record, address_v6_record, copy_records, record_views, DnsOutcome, RData, RDataView,
    Record, RecordType, RecordView, SvcParam, SvcParamView, Svcb, SvcbView,
};
use crate::dns::runtime::copy_opt_text;
use crate::ids::ConfigId;
use crate::net::{IpAddr, Ipv4Addr, Ipv6Addr};
use crate::text::{opt_str, opt_text, same_text, strip_suffix, without_suffix};

verus! {

/// The time to live of answers about hosts on the LAN, in seconds.
pub const HOSTNAME_TTL: u32 = 60;

/// The time to live of the announcement of encrypted resolvers, in seconds.
pub const DDR_TTL_SECS: u32 = 60;

/// Records and how they were come by.
pub type AnswerView = (Seq<RecordView>, DnsOutcome);

/// A redirect as it bears on one query.
#[derive(Debug)]
pub struct RedirectCandidate {
    /// Whether the name falls under the redirect.
    pub matches: bool,
    /// Whether its addresses are those of the router.
    pub uses_local_answer_provider: bool,
    /// Whether it is there to block the name.
    pub is_block: bool,
    pub redirect_id: Option<ConfigId>,
    pub dynamic_redirect_source: Option<String>,
    /// The records that it answers the query with.
    pub records: Vec<Record>,
}

/// What a redirect answers.
#[derive(Debug)]
pub struct RedirectAnswer {
    pub records: Vec<Record>,
    pub outcome: DnsOutcome,
    pub redirect_id: Option<ConfigId>,
    pub dynamic_redirect_source: Option<String>,
}

pub struct RedirectAnswerView {
    pub records: Seq<RecordView>,
    pub outcome: DnsOutcome,
    pub redirect_id: Option<ConfigId>,
    pub dynamic_redirect_source: Option<Seq<char>>,
}

impl View for RedirectAnswer {
    type V = RedirectAnswerView;

    open spec fn view(&self) -> RedirectAnswerView {
        RedirectAnswerView {
            records: record_views(self.records@),
            outcome: self.outcome,
            redirect_id: self.redirect_id,
            dynamic_redirect_source: opt_text(self.dynamic_redirect_source),
        }
    }
}

/// The view of an optional redirect answer.
pub open spec fn opt_redirect(o: Option<RedirectAnswer>) -> Option<RedirectAnswerView> {
    match o {
        Some(r) => Some(r@),
        None => None,
    }
}

/// Whether a redirect answers: one with the router's addresses only where
/// these are known and some are of the family asked for.
pub open spec fn redirect_answers(c: RedirectCandidate, has_provider: bool) -> bool {
    c.matches && (c.uses_local_answer_provider ==> has_provider && c.records@.len() > 0)
}

/// The answer of the first redirect from number `i` on that answers.
pub open spec fn first_redirect(
    candidates: Seq<RedirectCandidate>,
    has_provider: bool,
    i: int,
) -> Option<RedirectAnswerView>
    decreases candidates.len() - i,
{
    if i < 0 || i >= candidates.len() {
        None
    } else if redirect_answers(candidates[i], has_provider) {
        Some(
            RedirectAnswerView {
                records: record_views(candidates[i].records@),
                outcome: if candidates[i].is_block {
                    DnsOutcome::Block
                } else {
                    DnsOutcome::Local
                },
                redirect_id: candidates[i].redirect_id,
                dynamic_redirect_source: opt_text(candidates[i].dynamic_redirect_source),
            },
        )
    } else {
        first_redirect(candidates, has_provider, i + 1)
    }
}

pub fn lookup_redirects(candidates: &[RedirectCandidate], has_provider: bool) -> (r: Option<
    RedirectAnswer,
>)
    ensures
        opt_redirect(r) == first_redirect(candidates@, has_provider, 0),
{
    let n: usize = candidates.len();
    for i in 0..n
        invariant
            n == candidates@.len(),
            first_redirect(candidates@, has_provider, 0) == first_redirect(
                candidates@,
                has_provider,
                i as int,
            ),
    {
        let each = &candidates[i];
        if each.matches && (!each.uses_local_answer_provider || (has_provider && each.records.len()
            > 0)) {
            let outcome = if each.is_block {
                DnsOutcome::Block
            } else {
                DnsOutcome::Local
            };
            return Some(
                RedirectAnswer {
                    records: copy_records(&each.records),
                    outcome,
                    redirect_id: each.redirect_id,
                    dynamic_redirect_source: copy_opt_text(&each.dynamic_redirect_source),
                },
            );
        }
    }
    None
}

/// The record for an address where it is of the family asked for.
pub open spec fn address_record(
    name: Seq<char>,
    ttl: u32,
    query_type: RecordType,
    ip: IpAddr,
) -> Option<RecordView> {
    match (query_type, ip) {
        (RecordType::A, IpAddr::V4(v4)) => Some(RecordView { name, ttl, data: RDataView::A(v4) }),
        (RecordType::AAAA, IpAddr::V6(v6)) => Some(
            RecordView { name, ttl, data: RDataView::AAAA(v6) },
        ),
        _ => None,
    }
}

/// The records for those addresses that are of the family asked for, in order.
pub open spec fn address_records(
    name: Seq<char>,
    ttl: u32,
    query_type: RecordType,
    ips: Seq<IpAddr>,
) -> Seq<RecordView>
    decreases ips.len(),
{
    if ips.len() == 0 {
        Seq::empty()
    } else {
        let before = address_records(name, ttl, query_type, ips.drop_last());
        match address_record(name, ttl, query_type, ips.last()) {
            Some(r) => before.push(r),
            None => before,
        }
    }
}

/// The records that a redirect to the given addresses answers with.
pub fn lookup_with_addrs(name: &str, ttl: u32, query_type: RecordType, ips: &[IpAddr]) -> (r: Vec<
    Record,
>)
    ensures
        record_views(r@) == address_records(name@, ttl, query_type, ips@),
{
    let mut r: Vec<Record> = Vec::new();
    let n: usize = ips.len();
    assert(ips@.take(0) =~= Seq::empty());
    assert(record_views(r@) =~= Seq::empty());
    for i in 0..n
        invariant
            n == ips@.len(),
            record_views(r@) == address_records(name@, ttl, query_type, ips@.take(i as int)),
    {
        assert(ips@.take(i + 1).drop_last() =~= ips@.take(i as int));
        let ghost before = r@;
        match (query_type, ips[i]) {
            (RecordType::A, IpAddr::V4(v4)) => {
                let record = address_v4_record(name, ttl, v4);
                let ghost view = record@;
                r.push(record);
                assert(record_views(r@) =~= record_views(before).push(view));
            },
            (RecordType::AAAA, IpAddr::V6(v6)) => {
                let record = address_v6_record(name, ttl, v6);
                let ghost view = record@;
                r.push(record);
                assert(record_views(r@) =~= record_views(before).push(view));
            },
            _ => {},
        }
    }
    assert(ips@.take(n as int) =~= ips@);
    r
}

/// The record for a host with the given addresses.
pub open spec fn host_records(
    name: Seq<char>,
    ipv4: Option<Ipv4Addr>,
    ipv6: Option<Ipv6Addr>,
    query_type: RecordType,
) -> Seq<RecordView> {
    match query_type {
        RecordType::A => match ipv4 {
            Some(ip) => seq![RecordView { name, ttl: HOSTNAME_TTL, data: RDataView::A(ip) }],
            None => Seq::empty(),
        },
        RecordType::AAAA => match ipv6 {
            Some(ip) => seq![RecordView { name, ttl: HOSTNAME_TTL, data: RDataView::AAAA(ip) }],
            None => Seq::empty(),
        },
        _ => Seq::empty(),
    }
}

/// The record for a host on the LAN under the given name, given the addresses
/// registered for the host.
pub fn lookup_lan_hostname(
    owner: &str,
    ipv4: Option<Ipv4Addr>,
    ipv6: Option<Ipv6Addr>,
    query_type: RecordType,
) -> (r: Vec<Record>)
    ensures
        record_views(r@) == host_records(owner@, ipv4, ipv6, query_type),
{
    let mut r: Vec<Record> = Vec::new();
    match query_type {
        RecordType::A => {
            if let Some(ip) = ipv4 {
                r.push(address_v4_record(owner, HOSTNAME_TTL, ip));
            }
        },
        RecordType::AAAA => {
            if let Some(ip) = ipv6 {
                r.push(address_v6_record(owner, HOSTNAME_TTL, ip));
            }
        },
        _ => {},
    }
    assert(record_views(r@) =~= host_records(owner@, ipv4, ipv6, query_type));
    r
}

/// The loopback addresses.
pub open spec fn loopback_v4() -> Ipv4Addr {
    Ipv4Addr { bits: 0x7f00_0001 }
}

pub open spec fn loopback_v6() -> Ipv6Addr {
    Ipv6Addr { bits: 1 }
}

pub fn lookup_localhost(owner: &str, query_type: RecordType) -> (r: Vec<Record>)
    ensures
        record_views(r@) == host_records(
            owner@,
            Some(loopback_v4()),
            Some(loopback_v6()),
            query_type,
        ),
{
    lookup_lan_hostname(
        owner,
        Some(Ipv4Addr { bits: 0x7f00_0001 }),
        Some(Ipv6Addr { bits: 1 }),
        query_type,
    )
}

/// Whether an address leads back to the router itself.
pub open spec fn is_loopback(ip: IpAddr) -> bool {
    match ip {
        IpAddr::V4(v4) => v4.bits / 0x100_0000 == 127,
        IpAddr::V6(v6) => v6.bits == 1,
    }
}

/// The answer to a reverse query, given the name that the address leads to, if
/// that is a name.
pub open spec fn ptr_answer(owner: Seq<char>, target: Option<Seq<char>>) -> AnswerView {
    match target {
        Some(t) => (
            seq![RecordView { name: owner, ttl: HOSTNAME_TTL, data: RDataView::PTR(t) }],
            DnsOutcome::Local,
        ),
        None => (Seq::empty(), DnsOutcome::Error),
    }
}

/// The answer to a reverse query, given the name that the address leads to, if
/// that is a name.
pub fn answer_ptr(owner: &str, target: Option<String>) -> (r: (Vec<Record>, DnsOutcome))
    ensures
        (record_views(r.0@), r.1) == ptr_answer(owner@, opt_text(target)),
{
    match target {
        Some(t) => {
            let record = Record {
                name: owner.to_owned(),
                ttl: HOSTNAME_TTL,
                data: RData::PTR(t),
            };
            let mut records: Vec<Record> = Vec::new();
            records.push(record);
            assert(record_views(records@) =~= seq![record@]);
            (records, DnsOutcome::Local)
        },
        None => {
            let records: Vec<Record> = Vec::new();
            assert(record_views(records@) =~= Seq::empty());
            (records, DnsOutcome::Error)
        },
    }
}

/// The answer to a reverse query for an address that the router answers for:
/// loopback addresses lead to `localhost`, others to the name registered for
/// them.
pub open spec fn lan_ptr_answer(
    owner: Seq<char>,
    addr: IpAddr,
    managed: bool,
    registered: Option<Seq<char>>,
) -> Option<AnswerView> {
    if !managed {
        None
    } else if is_loopback(addr) {
        Some(ptr_answer(owner, utf8_name_text("localhost."@)))
    } else {
        match registered {
            Some(fqdn) => Some(ptr_answer(owner, utf8_name_text(fqdn))),
            None => Some((Seq::empty(), DnsOutcome::NxDomain)),
        }
    }
}

pub fn resolve_lan_ptr_by_addr(
    addr: IpAddr,
    owner: &str,
    managed: bool,
    registered: Option<&str>,
) -> (r: Option<(Vec<Record>, DnsOutcome)>)
    ensures
        match r {
            Some(answer) => lan_ptr_answer(owner@, addr, managed, opt_str(registered))
                == Some((record_views(answer.0@), answer.1)),
            None => lan_ptr_answer(owner@, addr, managed, opt_str(registered)) is None,
        },
{
    if !managed {
        return None;
    }
    let loopback: bool = match addr {
        IpAddr::V4(v4) => v4.bits / 0x100_0000 == 127,
        IpAddr::V6(v6) => v6.bits == 1,
    };
    if loopback {
        return Some(answer_ptr(owner, parse_utf8_name("localhost.")));
    }
    match registered {
        Some(fqdn) => Some(answer_ptr(owner, parse_utf8_name(fqdn))),
        None => {
            let records: Vec<Record> = Vec::new();
            assert(record_views(records@) =~= Seq::empty());
            Some((records, DnsOutcome::NxDomain))
        },
    }
}

/// The host part of a name below `home.arpa`.
pub open spec fn home_arpa_host(name: Seq<char>) -> Option<Seq<char>> {
    match without_suffix(name, ".arpa"@) {
        Some(front) => match without_suffix(front, ".home"@) {
            Some(h) => if h.len() > 0 {
                Some(h)
            } else {
                None
            },
            None => None,
        },
        None => None,
    }
}

/// The host part of a name below `home.arpa`.
pub fn home_arpa_hostname(domain: &PreprocessedDomain) -> (r: Option<&str>)
    ensures
        opt_str(r) == home_arpa_host(domain.name_text()),
{
    match domain.arpa_prefix() {
        Some(front) => match strip_suffix(front, ".home") {
            Some(h) => if h.is_empty() {
                None
            } else {
                Some(h)
            },
            None => None,
        },
        None => None,
    }
}

/// The answer for a name below `home.arpa`, given the addresses registered for
/// its host part: a name without a record does not exist.
pub open spec fn home_arpa_answer(
    name: Seq<char>,
    owner: Seq<char>,
    ipv4: Option<Ipv4Addr>,
    ipv6: Option<Ipv6Addr>,
    query_type: RecordType,
) -> AnswerView {
    let records = if home_arpa_host(name) is Some {
        host_records(owner, ipv4, ipv6, query_type)
    } else {
        Seq::empty()
    };
    (
        records,
        if records.len() == 0 {
            DnsOutcome::NxDomain
        } else {
            DnsOutcome::Local
        },
    )
}

pub fn resolve_home_arpa(
    domain: &PreprocessedDomain,
    owner: &str,
    ipv4: Option<Ipv4Addr>,
    ipv6: Option<Ipv6Addr>,
    query_type: RecordType,
) -> (r: (Vec<Record>, DnsOutcome))
    ensures
        (record_views(r.0@), r.1) == home_arpa_answer(
            domain.name_text(),
            owner@,
            ipv4,
            ipv6,
            query_type,
        ),
{
    if home_arpa_hostname(domain).is_none() {
        let none: Vec<Record> = Vec::new();
        assert(record_views(none@) =~= Seq::empty());
        return (none, DnsOutcome::NxDomain);
    }
    let records = lookup_lan_hostname(owner, ipv4, ipv6, query_type);
    let outcome = if records.len() == 0 {
        DnsOutcome::NxDomain
    } else {
        DnsOutcome::Local
    };
    (records, outcome)
}

/// The answer for a name below a local domain, given the addresses registered
/// for its host part: below `local` a host without a record still exists.
pub open spec fn local_domain_answer(
    name: Seq<char>,
    owner: Seq<char>,
    ipv4: Option<Ipv4Addr>,
    ipv6: Option<Ipv6Addr>,
    query_type: RecordType,
) -> AnswerView {
    let tld = last_label(name);
    if host_in_front_of(name, tld) is None {
        (Seq::empty(), DnsOutcome::NxDomain)
    } else {
        let records = host_records(owner, ipv4, ipv6, query_type);
        (
            records,
            if records.len() == 0 && tld != "local"@ {
                DnsOutcome::NxDomain
            } else {
                DnsOutcome::Local
            },
        )
    }
}

pub fn resolve_local_domain(
    domain: &PreprocessedDomain,
    owner: &str,
    ipv4: Option<Ipv4Addr>,
    ipv6: Option<Ipv6Addr>,
    query_type: RecordType,
) -> (r: (Vec<Record>, DnsOutcome))
    ensures
        (record_views(r.0@), r.1) == local_domain_answer(
            domain.name_text(),
            owner@,
            ipv4,
            ipv6,
            query_type,
        ),
{
    let tld = domain.tld();
    if domain.hostname_for_tld(tld).is_none() {
        let none: Vec<Record> = Vec::new();
        assert(record_views(none@) =~= Seq::empty());
        return (none, DnsOutcome::NxDomain);
    }
    let records = lookup_lan_hostname(owner, ipv4, ipv6, query_type);
    let outcome = if records.len() == 0 && !same_text(tld, "local") {
        DnsOutcome::NxDomain
    } else {
        DnsOutcome::Local
    };
    (records, outcome)
}

/// The IPv4 addresses among some addresses, in order.
pub open spec fn v4_of(ips: Seq<IpAddr>) -> Seq<Ipv4Addr>
    decreases ips.len(),
{
    if ips.len() == 0 {
        Seq::empty()
    } else {
        match ips.last() {
            IpAddr::V4(ip) => v4_of(ips.drop_last()).push(ip),
            IpAddr::V6(_) => v4_of(ips.drop_last()),
        }
    }
}

/// The IPv6 addresses among some addresses, in order.
pub open spec fn v6_of(ips: Seq<IpAddr>) -> Seq<Ipv6Addr>
    decreases ips.len(),
{
    if ips.len() == 0 {
        Seq::empty()
    } else {
        match ips.last() {
            IpAddr::V6(ip) => v6_of(ips.drop_last()).push(ip),
            IpAddr::V4(_) => v6_of(ips.drop_last()),
        }
    }
}

pub fn load_ipv4_hints(addrs: &[IpAddr]) -> (r: Vec<Ipv4Addr>)
    ensures
        r@ == v4_of(addrs@),
{
    let mut r: Vec<Ipv4Addr> = Vec::new();
    let n: usize = addrs.len();
    assert(addrs@.take(0) =~= Seq::empty());
    for i in 0..n
        invariant
            n == addrs@.len(),
            r@ == v4_of(addrs@.take(i as int)),
    {
        assert(addrs@.take(i + 1).drop_last() =~= addrs@.take(i as int));
        if let IpAddr::V4(ip) = addrs[i] {
            r.push(ip);
        }
    }
    assert(addrs@.take(n as int) =~= addrs@);
    r
}

pub fn load_ipv6_hints(addrs: &[IpAddr]) -> (r: Vec<Ipv6Addr>)
    ensures
        r@ == v6_of(addrs@),
{
    let mut r: Vec<Ipv6Addr> = Vec::new();
    let n: usize = addrs.len();
    assert(addrs@.take(0) =~= Seq::empty());
    for i in 0..n
        invariant
            n == addrs@.len(),
            r@ == v6_of(addrs@.take(i as int)),
    {
        assert(addrs@.take(i + 1).drop_last() =~= addrs@.take(i as int));
        if let IpAddr::V6(ip) = addrs[i] {
            r.push(ip);
        }
    }
    assert(addrs@.take(n as int) =~= addrs@);
    r
}

/// The parameters of the announcement, by increasing number: the protocol, the
/// port, the address hints where there are any, and the path of the query.
pub open spec fn ddr_params(
    port: u16,
    path: Seq<u8>,
    ipv4: Seq<Ipv4Addr>,
    ipv6: Seq<Ipv6Addr>,
) -> Seq<SvcParamView> {
    let head = seq![SvcParamView::Alpn("h2"@), SvcParamView::Port(port)];
    let v4 = if ipv4.len() > 0 {
        seq![SvcParamView::Ipv4Hint(ipv4)]
    } else {
        Seq::empty()
    };
    let v6 = if ipv6.len() > 0 {
        seq![SvcParamView::Ipv6Hint(ipv6)]
    } else {
        Seq::empty()
    };
    head + v4 + v6 + seq![SvcParamView::Other(7, path)]
}

/// The record that announces an encrypted resolver under a name.
pub open spec fn ddr_record_view(
    owner: Seq<char>,
    target: Seq<char>,
    port: u16,
    path: Seq<u8>,
    ipv4: Seq<Ipv4Addr>,
    ipv6: Seq<Ipv6Addr>,
) -> RecordView {
    RecordView {
        name: owner,
        ttl: DDR_TTL_SECS,
        data: RDataView::SVCB(
            SvcbView { priority: 1, target, params: ddr_params(port, path, ipv4, ipv6) },
        ),
    }
}

fn copy_bytes(b: &Vec<u8>) -> (r: Vec<u8>)
    ensures
        r@ == b@,
{
    let r = b.clone();
    assert(r@ =~= b@);
    r
}

/// The record that announces an encrypted resolver under a name.
pub fn ddr_record(
    owner: &str,
    target: String,
    port: u16,
    path: &Vec<u8>,
    ipv4_hints: &Vec<Ipv4Addr>,
    ipv6_hints: &Vec<Ipv6Addr>,
) -> (r: Record)
    ensures
        r@ == ddr_record_view(owner@, target@, port, path@, ipv4_hints@, ipv6_hints@),
{
    let mut params: Vec<SvcParam> = Vec::new();
    params.push(SvcParam::Alpn("h2".to_owned()));
    params.push(SvcParam::Port(port));
    if ipv4_hints.len() > 0 {
        let copy = ipv4_hints.clone();
        assert(copy@ =~= ipv4_hints@);
        params.push(SvcParam::Ipv4Hint(copy));
    }
    if ipv6_hints.len() > 0 {
        let copy = ipv6_hints.clone();
        assert(copy@ =~= ipv6_hints@);
        params.push(SvcParam::Ipv6Hint(copy));
    }
    params.push(SvcParam::Other(7, copy_bytes(path)));
    assert(crate::dns::types::param_views(params@) =~= ddr_params(
        port,
        path@,
        ipv4_hints@,
        ipv6_hints@,
    ));
    Record {
        name: owner.to_owned(),
        ttl: DDR_TTL_SECS,
        data: RData::SVCB(Svcb { priority: 1, target, params }),
    }
}

/// The announcements for those domains that are names, in order.
pub open spec fn ddr_records(
    owner: Seq<char>,
    domains: Seq<String>,
    port: u16,
    path: Seq<u8>,
    ipv4: Seq<Ipv4Addr>,
    ipv6: Seq<Ipv6Addr>,
) -> Seq<RecordView>
    decreases domains.len(),
{
    if domains.len() == 0 {
        Seq::empty()
    } else {
        let before = ddr_records(owner, domains.drop_last(), port, path, ipv4, ipv6);
        match dns_name_text(domains.last()@ + "."@) {
            Some(target) => before.push(ddr_record_view(owner, target, port, path, ipv4, ipv6)),
            None => before,
        }
    }
}

/// The announcements of encrypted resolvers under the given domains.
pub open spec fn ddr_answer(
    domains: Seq<String>,
    port: u16,
    path: Seq<u8>,
    ipv4: Seq<Ipv4Addr>,
    ipv6: Seq<Ipv6Addr>,
) -> Seq<RecordView> {
    match dns_name_text("_dns.resolver.arpa."@) {
        Some(owner) => ddr_records(owner, domains, port, path, ipv4, ipv6),
        None => Seq::empty(),
    }
}

/// The announcements of encrypted resolvers under the given domains, with the
/// path template in its final form.
pub fn build_ddr_records(
    domains: &[String],
    port: u16,
    path_template: &Vec<u8>,
    local_v4: &[IpAddr],
    local_v6: &[IpAddr],
) -> (r: Vec<Record>)
    ensures
        record_views(r@) == ddr_answer(
            domains@,
            port,
            path_template@,
            v4_of(local_v4@),
            v6_of(local_v6@),
        ),
{
    let mut r: Vec<Record> = Vec::new();
    assert(record_views(r@) =~= Seq::empty());
    let owner = match parse_dns_name("_dns.resolver.arpa.") {
        Some(owner) => owner,
        None => {
            return r;
        },
    };
    let ipv4_hints = load_ipv4_hints(local_v4);
    let ipv6_hints = load_ipv6_hints(local_v6);
    let n: usize = domains.len();
    assert(domains@.take(0) =~= Seq::empty());
    for i in 0..n
        invariant
            n == domains@.len(),
            dns_name_text("_dns.resolver.arpa."@) == Some(owner@),
            ipv4_hints@ == v4_of(local_v4@),
            ipv6_hints@ == v6_of(local_v6@),
            record_views(r@) == ddr_records(
                owner@,
                domains@.take(i as int),
                port,
                path_template@,
                ipv4_hints@,
                ipv6_hints@,
            ),
    {
        assert(domains@.take(i + 1).drop_last() =~= domains@.take(i as int));
        let full = domains[i].clone().concat(".");
        if let Some(target) = parse_dns_name(&full) {
            let record = ddr_record(
                &owner,
                target,
                port,
                path_template,
                &ipv4_hints,
                &ipv6_hints,
            );
            let ghost before = r@;
            let ghost view = record@;
            r.push(record);
            assert(record_views(r@) =~= record_views(before).push(view));
        }
    }
    assert(domains@.take(n as int) =~= domains@);
    r
}

/// The parameters of an announcement stand by increasing number.
pub proof fn law_ddr_params_increase(
    port: u16,
    path: Seq<u8>,
    ipv4: Seq<Ipv4Addr>,
    ipv6: Seq<Ipv6Addr>,
    i: int,
    j: int,
)
    requires
        0 <= i < j < ddr_params(port, path, ipv4, ipv6).len(),
    ensures
        ddr_params(port, path, ipv4, ipv6)[i].key() < ddr_params(port, path, ipv4, ipv6)[j].key(),
{
}

/// A redirect that shows the router's addresses is passed over where none is
/// of the family asked for, and another one answers all the same.
pub proof fn law_redirect_families(c: RedirectCandidate, has_provider: bool)
    requires
        c.matches,
        c.records@.len() == 0,
    ensures
        redirect_answers(c, has_provider) == !c.uses_local_answer_provider,
{
}

proof fn lemma_redirects_passed_over(
    candidates: Seq<RedirectCandidate>,
    has_provider: bool,
    from: int,
    to: int,
)
    requires
        0 <= from <= to <= candidates.len(),
        forall|k: int|
            from <= k < to ==> !redirect_answers(#[trigger] candidates[k], has_provider),
    ensures
        first_redirect(candidates, has_provider, from) == first_redirect(
            candidates,
            has_provider,
            to,
        ),
    decreases to - from,
{
    if from < to {
        assert(!redirect_answers(candidates[from], has_provider));
        lemma_redirects_passed_over(candidates, has_provider, from + 1, to);
    }
}

/// The first redirect that answers decides, whatever stands behind it. One
/// answers where the name falls under it and, if it shows the router's
/// addresses, these are known and some are of the family asked for. The answer
/// has its records and its marks, and is a block where it is there to block.
pub proof fn law_first_redirect_decides(
    candidates: Seq<RedirectCandidate>,
    has_provider: bool,
    i: int,
)
    requires
        0 <= i < candidates.len(),
        candidates[i].matches,
        candidates[i].uses_local_answer_provider ==> has_provider && candidates[i].records@.len()
            > 0,
        forall|k: int|
            0 <= k < i && (#[trigger] candidates[k]).matches
                ==> candidates[k].uses_local_answer_provider && (!has_provider
                || candidates[k].records@.len() == 0),
    ensures
        first_redirect(candidates, has_provider, 0) matches Some(answer) && {
            &&& answer.records == candidates[i].records@.map_values(|r: Record| r@)
            &&& answer.redirect_id == candidates[i].redirect_id
            &&& candidates[i].is_block ==> answer.outcome == DnsOutcome::Block
            &&& !candidates[i].is_block ==> answer.outcome == DnsOutcome::Local
            &&& match candidates[i].dynamic_redirect_source {
                Some(source) => answer.dynamic_redirect_source == Some(source@),
                None => answer.dynamic_redirect_source is None,
            }
        },
{
    lemma_redirects_passed_over(candidates, has_provider, 0, i);
}

/// Where no redirect answers there is no answer.
pub proof fn law_no_redirect_no_answer(candidates: Seq<RedirectCandidate>, has_provider: bool)
    requires
        forall|k: int|
            0 <= k < candidates.len() && (#[trigger] candidates[k]).matches
                ==> candidates[k].uses_local_answer_provider && (!has_provider
                || candidates[k].records@.len() == 0),
    ensures
        first_redirect(candidates, has_provider, 0) is None,
{
    lemma_redirects_passed_over(candidates, has_provider, 0, candidates.len() as int);
}

/// The records for addresses are made one by one, in order: an IPv4 address
/// gives one to a query of type A, an IPv6 address one to a query of type
/// AAAA, each with the name and time to live given, and nothing else gives any.
pub proof fn law_each_address_is_answered_alone(
    name: Seq<char>,
    ttl: u32,
    query_type: RecordType,
    front: Seq<IpAddr>,
    ip: IpAddr,
    back: Seq<IpAddr>,
)
    ensures
        address_records(name, ttl, query_type, Seq::empty()) == Seq::<RecordView>::empty(),
        ({
            let whole = address_records(name, ttl, query_type, front + seq![ip] + back);
            let before = address_records(name, ttl, query_type, front);
            let after = address_records(name, ttl, query_type, back);
            match ip {
                IpAddr::V4(v4) => if query_type == RecordType::A {
                    whole == before + seq![RecordView { name, ttl, data: RDataView::A(v4) }]
                        + after
                } else {
                    whole == before + after
                },
                IpAddr::V6(v6) => if query_type == RecordType::AAAA {
                    whole == before + seq![RecordView { name, ttl, data: RDataView::AAAA(v6) }]
                        + after
                } else {
                    whole == before + after
                },
            }
        }),
    decreases back.len(),
{
    let all = front + seq![ip] + back;
    let before = address_records(name, ttl, query_type, front);
    let after = address_records(name, ttl, query_type, back);
    if back.len() == 0 {
        assert(all.drop_last() =~= front);
        assert(all.last() == ip);
        assert(address_records(name, ttl, query_type, all) =~= match address_record(
            name,
            ttl,
            query_type,
            ip,
        ) {
            Some(r) => before + seq![r] + after,
            None => before + after,
        });
    } else {
        let less = back.drop_last();
        assert(all.drop_last() =~= front + seq![ip] + less);
        assert(all.last() == back.last());
        law_each_address_is_answered_alone(name, ttl, query_type, front, ip, less);
        assert(address_records(name, ttl, query_type, all) =~= match address_record(
            name,
            ttl,
            query_type,
            ip,
        ) {
            Some(r) => before + seq![r] + after,
            None => before + after,
        });
    }
}

/// A host is answered for with the one address of the family asked for, under
/// the name asked for and for one minute; without such an address, and to any
/// other query, with nothing.
pub proof fn law_host_has_one_record_of_a_family(
    name: Seq<char>,
    ipv4: Option<Ipv4Addr>,
    ipv6: Option<Ipv6Addr>,
    query_type: RecordType,
)
    ensures
        ({
            let records = host_records(name, ipv4, ipv6, query_type);
            let found = (query_type == RecordType::A && ipv4 is Some) || (query_type
                == RecordType::AAAA && ipv6 is Some);
            &&& !found ==> records.len() == 0
            &&& found ==> records.len() == 1 && records[0].name == name && records[0].ttl == 60
            &&& found && query_type == RecordType::A ==> records[0].data == RDataView::A(ipv4->0)
            &&& found && query_type == RecordType::AAAA ==> records[0].data == RDataView::AAAA(
                ipv6->0,
            )
        }),
{
}

/// The loopback addresses are `127.0.0.1` and `::1`, and every address that
/// starts with 127 leads back to the router.
pub proof fn law_loopback_addresses(ip: IpAddr)
    ensures
        loopback_v4().spec_octets() == seq![127u8, 0, 0, 1],
        loopback_v6().bits == 1,
        ip matches IpAddr::V4(v4) ==> (is_loopback(ip) <==> v4.spec_octets()[0] == 127),
        ip matches IpAddr::V6(v6) ==> (is_loopback(ip) <==> v6.bits == 1),
{
    assert(loopback_v4().spec_octets() =~= seq![127u8, 0, 0, 1]);
}

/// A reverse query for an address that the router does not answer for is left
/// to others. For its own, loopback addresses lead to `localhost` whatever is
/// registered, and others to the name that is registered; one without a name
/// does not exist, and what is no name is an error.
pub proof fn law_reverse_answers(
    owner: Seq<char>,
    addr: IpAddr,
    registered: Option<Seq<char>>,
)
    ensures
        lan_ptr_answer(owner, addr, false, registered) is None,
        !is_loopback(addr) && registered is None ==> lan_ptr_answer(owner, addr, true, registered)
            == Some((Seq::<RecordView>::empty(), DnsOutcome::NxDomain)),
        ({
            let text = if is_loopback(addr) {
                Some("localhost."@)
            } else {
                registered
            };
            text is Some ==> match utf8_name_text(text->0) {
                Some(target) => {
                    &&& lan_ptr_answer(owner, addr, true, registered) matches Some((
                        records,
                        outcome,
                    ))
                    &&& outcome == DnsOutcome::Local
                    &&& records.len() == 1
                    &&& records[0].name == owner
                    &&& records[0].ttl == 60
                    &&& records[0].data == RDataView::PTR(target)
                },
                None => lan_ptr_answer(owner, addr, true, registered) == Some(
                    (Seq::<RecordView>::empty(), DnsOutcome::Error),
                ),
            }
        }),
{
}

/// A host below `home.arpa` is answered for with its records, and does not
/// exist without any; `home.arpa` itself is no host.
pub proof fn law_home_arpa_answers(
    host: Seq<char>,
    owner: Seq<char>,
    ipv4: Option<Ipv4Addr>,
    ipv6: Option<Ipv6Addr>,
    query_type: RecordType,
)
    requires
        host.len() > 0,
    ensures
        ({
            let records = host_records(owner, ipv4, ipv6, query_type);
            let answer = home_arpa_answer(host + ".home.arpa"@, owner, ipv4, ipv6, query_type);
            &&& home_arpa_host(host + ".home.arpa"@) == Some(host)
            &&& answer.0 == records
            &&& records.len() > 0 ==> answer.1 == DnsOutcome::Local
            &&& records.len() == 0 ==> answer.1 == DnsOutcome::NxDomain
        }),
        home_arpa_host("home.arpa"@) is None,
{
    reveal_strlit(".home.arpa");
    reveal_strlit("home.arpa");
    reveal_strlit(".arpa");
    reveal_strlit(".home");
    let name = host + ".home.arpa"@;
    let front = host + ".home"@;
    assert(name.subrange(name.len() - 5, name.len() as int) =~= ".arpa"@);
    assert(name.take(name.len() - 5) =~= front);
    assert(front.subrange(front.len() - 5, front.len() as int) =~= ".home"@);
    assert(front.take(front.len() - 5) =~= host);
    let own = "home.arpa"@;
    assert(own.subrange(4, 9) =~= ".arpa"@);
    assert(own.take(4).len() == 4);
}

/// A host below a local domain is answered for with its records; without any
/// it does not exist, except below `local`. The domain itself is no host.
pub proof fn law_local_domain_answers(
    host: Seq<char>,
    tld: Seq<char>,
    owner: Seq<char>,
    ipv4: Option<Ipv4Addr>,
    ipv6: Option<Ipv6Addr>,
    query_type: RecordType,
)
    requires
        host.len() > 0,
        !tld.contains('.'),
    ensures
        ({
            let records = host_records(owner, ipv4, ipv6, query_type);
            let answer = local_domain_answer(
                host.push('.') + tld,
                owner,
                ipv4,
                ipv6,
                query_type,
            );
            &&& answer.0 == records
            &&& records.len() > 0 || tld == "local"@ ==> answer.1 == DnsOutcome::Local
            &&& records.len() == 0 && tld != "local"@ ==> answer.1 == DnsOutcome::NxDomain
        }),
        local_domain_answer(tld, owner, ipv4, ipv6, query_type) == (
            Seq::<RecordView>::empty(),
            DnsOutcome::NxDomain,
        ),
{
    crate::dns::domain::law_last_labels(host, tld, tld);
    crate::dns::domain::law_host_is_in_front(host, tld);
}

/// The hints of a family are the addresses of that family, in order.
pub proof fn law_hints_keep_their_family(front: Seq<IpAddr>, ip: IpAddr, back: Seq<IpAddr>)
    ensures
        match ip {
            IpAddr::V4(v4) => v4_of(front + seq![ip] + back) == v4_of(front) + seq![v4] + v4_of(
                back,
            ) && v6_of(front + seq![ip] + back) == v6_of(front) + v6_of(back),
            IpAddr::V6(v6) => v6_of(front + seq![ip] + back) == v6_of(front) + seq![v6] + v6_of(
                back,
            ) && v4_of(front + seq![ip] + back) == v4_of(front) + v4_of(back),
        },
        v4_of(Seq::empty()) == Seq::<Ipv4Addr>::empty(),
        v6_of(Seq::empty()) == Seq::<Ipv6Addr>::empty(),
    decreases back.len(),
{
    let all = front + seq![ip] + back;
    if back.len() == 0 {
        assert(all.drop_last() =~= front);
        assert(all.last() == ip);
        assert(v4_of(front) + v4_of(back) =~= v4_of(front));
        assert(v6_of(front) + v6_of(back) =~= v6_of(front));
        match ip {
            IpAddr::V4(v4) => {
                assert(v4_of(all) =~= v4_of(front) + seq![v4] + v4_of(back));
            },
            IpAddr::V6(v6) => {
                assert(v6_of(all) =~= v6_of(front) + seq![v6] + v6_of(back));
            },
        }
    } else {
        let less = back.drop_last();
        assert(all.drop_last() =~= front + seq![ip] + less);
        assert(all.last() == back.last());
        law_hints_keep_their_family(front, ip, less);
        match ip {
            IpAddr::V4(v4) => {
                assert(v4_of(all) =~= v4_of(front) + seq![v4] + v4_of(back));
                assert(v6_of(all) =~= v6_of(front) + v6_of(back));
            },
            IpAddr::V6(v6) => {
                assert(v6_of(all) =~= v6_of(front) + seq![v6] + v6_of(back));
                assert(v4_of(all) =~= v4_of(front) + v4_of(back));
            },
        }
    }
}

/// An announcement names the target with the protocol, the port and the path
/// that were given, and with hints exactly where there are addresses of the
/// family.
pub proof fn law_announcement_says_what_is_offered(
    owner: Seq<char>,
    target: Seq<char>,
    port: u16,
    path: Seq<u8>,
    ipv4: Seq<Ipv4Addr>,
    ipv6: Seq<Ipv6Addr>,
)
    ensures
        ({
            let r = ddr_record_view(owner, target, port, path, ipv4, ipv6);
            &&& r.name == owner
            &&& r.ttl == 60
            &&& r.data matches RDataView::SVCB(s)
            &&& s.priority == 1
            &&& s.target == target
            &&& s.params.contains(SvcParamView::Alpn("h2"@))
            &&& s.params.contains(SvcParamView::Port(port))
            &&& s.params.contains(SvcParamView::Other(7, path))
            &&& s.params.contains(SvcParamView::Ipv4Hint(ipv4)) <==> ipv4.len() > 0
            &&& s.params.contains(SvcParamView::Ipv6Hint(ipv6)) <==> ipv6.len() > 0
            &&& s.params.len() == 3 + (if ipv4.len() > 0 {
                1int
            } else {
                0
            }) + (if ipv6.len() > 0 {
                1int
            } else {
                0
            })
        }),
{
    let params = ddr_params(port, path, ipv4, ipv6);
    assert(params[0] == SvcParamView::Alpn("h2"@));
    assert(params[1] == SvcParamView::Port(port));
    assert(params[params.len() - 1] == SvcParamView::Other(7, path));
    if ipv4.len() > 0 {
        assert(params[2] == SvcParamView::Ipv4Hint(ipv4));
    }
    if ipv6.len() > 0 {
        assert(params[params.len() - 2] == SvcParamView::Ipv6Hint(ipv6));
    }
}

/// Every domain that is a name is announced, in order, and no other.
pub proof fn law_each_domain_is_announced(
    owner: Seq<char>,
    front: Seq<String>,
    domain: String,
    port: u16,
    path: Seq<u8>,
    ipv4: Seq<Ipv4Addr>,
    ipv6: Seq<Ipv6Addr>,
)
    ensures
        ddr_records(owner, Seq::empty(), port, path, ipv4, ipv6) == Seq::<RecordView>::empty(),
        ddr_records(owner, front.push(domain), port, path, ipv4, ipv6) == match dns_name_text(
            domain@ + "."@,
        ) {
            Some(target) => ddr_records(owner, front, port, path, ipv4, ipv6).push(
                ddr_record_view(owner, target, port, path, ipv4, ipv6),
            ),
            None => ddr_records(owner, front, port, path, ipv4, ipv6),
        },
{
    assert(front.push(domain).drop_last() =~= front);
}

} // verus!

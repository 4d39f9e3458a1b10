//! Queries, records and answers.
use vstd::prelude::*;
use crate::net::{Ipv4Addr, Ipv6Addr};

verus! {

/// The type of a record or of a query; a type without a name here by its number.
#[derive(Debug, Clone, Copy, PartialEq, Eq, Hash, Structural)]
pub enum RecordType {
    A,
    AAAA,
    PTR,
    SVCB,
    HTTPS,
    ANY,
    AXFR,
    IXFR,
    OPT,
    ZERO,
    TSIG,
    Other(u16),
}

/// The code that an answer carries; a code without a name here by its number.
#[derive(Debug, Clone, Copy, PartialEq, Eq, Structural)]
pub enum ResponseCode {
    NoError,
    FormErr,
    ServFail,
    NXDomain,
    NotImp,
    Refused,
    Other(u16),
}

/// How a query came to its answer.
#[derive(Debug, Clone, Copy, PartialEq, Eq, Structural)]
pub enum DnsOutcome {
    Normal,
    Local,
    Block,
    Hit,
    NxDomain,
    Filter,
    Error,
}

/// Which address families a rule lets through.
#[derive(Debug, Clone, Copy, PartialEq, Eq, Structural)]
pub enum FilterResult {
    Unfilter,
    OnlyIPv4,
    OnlyIPv6,
}

impl Default for FilterResult {
    fn default() -> (r: Self)
        ensures
            r is Unfilter,
    {
        FilterResult::Unfilter
    }
}

/// The mark that traffic to an answer's addresses gets, and its priority.
#[derive(Debug, Clone, Copy, PartialEq, Eq, Structural)]
pub struct DnsRuntimeMarkInfo {
    pub mark: u32,
    pub priority: u16,
}

/// A parameter of a service binding.
#[derive(Debug)]
pub enum SvcParam {
    Alpn(String),
    Port(u16),
    Ipv4Hint(Vec<Ipv4Addr>),
    Ipv6Hint(Vec<Ipv6Addr>),
    Other(u16, Vec<u8>),
}

/// A service binding.
#[derive(Debug)]
pub struct Svcb {
    pub priority: u16,
    pub target: String,
    pub params: Vec<SvcParam>,
}

/// What a record says; a type without a name here by its number and bytes.
#[derive(Debug)]
pub enum RData {
    A(Ipv4Addr),
    AAAA(Ipv6Addr),
    PTR(String),
    SVCB(Svcb),
    HTTPS(Svcb),
    Other(u16, Vec<u8>),
}

#[derive(Debug)]
pub struct Record {
    pub name: String,
    pub ttl: u32,
    pub data: RData,
}

pub enum SvcParamView {
    Alpn(Seq<char>),
    Port(u16),
    Ipv4Hint(Seq<Ipv4Addr>),
    Ipv6Hint(Seq<Ipv6Addr>),
    Other(u16, Seq<u8>),
}

pub struct SvcbView {
    pub priority: u16,
    pub target: Seq<char>,
    pub params: Seq<SvcParamView>,
}

pub enum RDataView {
    A(Ipv4Addr),
    AAAA(Ipv6Addr),
    PTR(Seq<char>),
    SVCB(SvcbView),
    HTTPS(SvcbView),
    Other(u16, Seq<u8>),
}

pub struct RecordView {
    pub name: Seq<char>,
    pub ttl: u32,
    pub data: RDataView,
}

impl View for SvcParam {
    type V = SvcParamView;

    open spec fn view(&self) -> SvcParamView {
        match *self {
            SvcParam::Alpn(s) => SvcParamView::Alpn(s@),
            SvcParam::Port(p) => SvcParamView::Port(p),
            SvcParam::Ipv4Hint(v) => SvcParamView::Ipv4Hint(v@),
            SvcParam::Ipv6Hint(v) => SvcParamView::Ipv6Hint(v@),
            SvcParam::Other(k, v) => SvcParamView::Other(k, v@),
        }
    }
}

/// The views of a list of parameters.
pub open spec fn param_views(v: Seq<SvcParam>) -> Seq<SvcParamView> {
    v.map_values(|p: SvcParam| p@)
}

impl View for Svcb {
    type V = SvcbView;

    open spec fn view(&self) -> SvcbView {
        SvcbView {
            priority: self.priority,
            target: self.target@,
            params: param_views(self.params@),
        }
    }
}

impl View for RData {
    type V = RDataView;

    open spec fn view(&self) -> RDataView {
        match *self {
            RData::A(ip) => RDataView::A(ip),
            RData::AAAA(ip) => RDataView::AAAA(ip),
            RData::PTR(name) => RDataView::PTR(name@),
            RData::SVCB(s) => RDataView::SVCB(s@),
            RData::HTTPS(s) => RDataView::HTTPS(s@),
            RData::Other(t, v) => RDataView::Other(t, v@),
        }
    }
}

impl View for Record {
    type V = RecordView;

    open spec fn view(&self) -> RecordView {
        RecordView { name: self.name@, ttl: self.ttl, data: self.data@ }
    }
}

/// The views of a list of records.
pub open spec fn record_views(v: Seq<Record>) -> Seq<RecordView> {
    v.map_values(|r: Record| r@)
}

impl SvcParamView {
    /// The number of the parameter.
    pub open spec fn key(self) -> u16 {
        match self {
            SvcParamView::Alpn(_) => 1,
            SvcParamView::Port(_) => 3,
            SvcParamView::Ipv4Hint(_) => 4,
            SvcParamView::Ipv6Hint(_) => 6,
            SvcParamView::Other(k, _) => k,
        }
    }
}

impl SvcParam {
    pub fn key(&self) -> (r: u16)
        ensures
            r == self@.key(),
    {
        match self {
            SvcParam::Alpn(_) => 1,
            SvcParam::Port(_) => 3,
            SvcParam::Ipv4Hint(_) => 4,
            SvcParam::Ipv6Hint(_) => 6,
            SvcParam::Other(k, _) => *k,
        }
    }
}

impl RDataView {
    pub open spec fn record_type(self) -> RecordType {
        match self {
            RDataView::A(_) => RecordType::A,
            RDataView::AAAA(_) => RecordType::AAAA,
            RDataView::PTR(_) => RecordType::PTR,
            RDataView::SVCB(_) => RecordType::SVCB,
            RDataView::HTTPS(_) => RecordType::HTTPS,
            RDataView::Other(t, _) => RecordType::Other(t),
        }
    }
}

impl Record {
    pub fn record_type(&self) -> (r: RecordType)
        ensures
            r == self@.data.record_type(),
    {
        match &self.data {
            RData::A(_) => RecordType::A,
            RData::AAAA(_) => RecordType::AAAA,
            RData::PTR(_) => RecordType::PTR,
            RData::SVCB(_) => RecordType::SVCB,
            RData::HTTPS(_) => RecordType::HTTPS,
            RData::Other(t, _) => RecordType::Other(*t),
        }
    }
}

impl Clone for SvcParam {
    fn clone(&self) -> (r: Self)
        ensures
            r@ == self@,
    {
        match self {
            SvcParam::Alpn(s) => SvcParam::Alpn(s.clone()),
            SvcParam::Port(p) => SvcParam::Port(*p),
            SvcParam::Ipv4Hint(v) => {
                let copy = v.clone();
                assert(copy@ =~= v@);
                SvcParam::Ipv4Hint(copy)
            },
            SvcParam::Ipv6Hint(v) => {
                let copy = v.clone();
                assert(copy@ =~= v@);
                SvcParam::Ipv6Hint(copy)
            },
            SvcParam::Other(k, v) => {
                let copy = v.clone();
                assert(copy@ =~= v@);
                SvcParam::Other(*k, copy)
            },
        }
    }
}

impl Clone for Svcb {
    fn clone(&self) -> (r: Self)
        ensures
            r@ == self@,
    {
        let params = self.params.clone();
        assert(param_views(params@) =~= param_views(self.params@));
        Svcb { priority: self.priority, target: self.target.clone(), params }
    }
}

impl Clone for RData {
    fn clone(&self) -> (r: Self)
        ensures
            r@ == self@,
    {
        match self {
            RData::A(ip) => RData::A(*ip),
            RData::AAAA(ip) => RData::AAAA(*ip),
            RData::PTR(name) => RData::PTR(name.clone()),
            RData::SVCB(s) => RData::SVCB(s.clone()),
            RData::HTTPS(s) => RData::HTTPS(s.clone()),
            RData::Other(t, v) => {
                let copy = v.clone();
                assert(copy@ =~= v@);
                RData::Other(*t, copy)
            },
        }
    }
}

impl Clone for Record {
    fn clone(&self) -> (r: Self)
        ensures
            r@ == self@,
    {
        Record { name: self.name.clone(), ttl: self.ttl, data: self.data.clone() }
    }
}

/// A copy of a list of records.
pub fn copy_records(v: &Vec<Record>) -> (r: Vec<Record>)
    ensures
        record_views(r@) == record_views(v@),
{
    let r = v.clone();
    assert(record_views(r@) =~= record_views(v@));
    r
}

/// An address record for the given name.
pub fn address_v4_record(name: &str, ttl: u32, ip: Ipv4Addr) -> (r: Record)
    ensures
        r@ == (RecordView { name: name@, ttl, data: RDataView::A(ip) }),
{
    Record { name: name.to_owned(), ttl, data: RData::A(ip) }
}

/// An IPv6 address record for the given name.
pub fn address_v6_record(name: &str, ttl: u32, ip: Ipv6Addr) -> (r: Record)
    ensures
        r@ == (RecordView { name: name@, ttl, data: RDataView::AAAA(ip) }),
{
    Record { name: name.to_owned(), ttl, data: RData::AAAA(ip) }
}

} // verus!

//! Asking how a name is answered.
use vstd::prelude::*;
use crate::dns::error::{DnsError, FlowId};
use crate::dns::runtime::DNSRuntimeRule;
use crate::dns::types::{record_views, FilterResult, Record, RecordType, RecordView};
use crate::hostname::outside::{ascii_form, plain_char, plain_domain, to_ascii};
use crate::ids::ConfigId;
use crate::text::{
    is_white_space, lower, opt_text, to_lower, trim, trim_end, trim_end_char, trim_start, trimmed,
    without_trailing,
};

verus! {

/// A record as it is shown.
#[derive(Debug, Clone)]
pub struct LandscapeRecord {
    pub name: String,
    pub rr_type: String,
    pub ttl: u32,
    pub data: String,
}

#[derive(Debug)]
pub struct CheckDnsResult {
    pub config: Option<DNSRuntimeRule>,
    pub records: Option<Vec<LandscapeRecord>>,
    pub cache_records: Option<Vec<LandscapeRecord>>,
}

/// How a name is answered.
#[derive(Debug)]
pub struct CheckChainDnsResult {
    /// The redirect that answers, if one does.
    pub redirect_id: Option<ConfigId>,
    /// Where that redirect comes from, if it was not configured.
    pub dynamic_redirect_source: Option<String>,
    /// The rule that the name falls under, if any.
    pub rule_id: Option<ConfigId>,
    /// The filter of that rule or of the cache entry.
    pub rule_filter: Option<FilterResult>,
    /// Whether that filter turns the query away, applied or not.
    pub query_filtered: bool,
    /// The records of the redirect or of the upstream server.
    pub records: Option<Vec<Record>>,
    /// The records in the cache.
    pub cache_records: Option<Vec<Record>>,
}

pub struct CheckView {
    pub redirect_id: Option<ConfigId>,
    pub dynamic_redirect_source: Option<Seq<char>>,
    pub rule_id: Option<ConfigId>,
    pub rule_filter: Option<FilterResult>,
    pub query_filtered: bool,
    pub records: Option<Seq<RecordView>>,
    pub cache_records: Option<Seq<RecordView>>,
}

/// The views of an optional list of records.
pub open spec fn opt_records(o: Option<Vec<Record>>) -> Option<Seq<RecordView>> {
    match o {
        Some(v) => Some(record_views(v@)),
        None => None,
    }
}

impl View for CheckChainDnsResult {
    type V = CheckView;

    open spec fn view(&self) -> CheckView {
        CheckView {
            redirect_id: self.redirect_id,
            dynamic_redirect_source: opt_text(self.dynamic_redirect_source),
            rule_id: self.rule_id,
            rule_filter: self.rule_filter,
            query_filtered: self.query_filtered,
            records: opt_records(self.records),
            cache_records: opt_records(self.cache_records),
        }
    }
}

/// Nothing found.
pub open spec fn empty_check() -> CheckView {
    CheckView {
        redirect_id: None,
        dynamic_redirect_source: None,
        rule_id: None,
        rule_filter: None,
        query_filtered: false,
        records: None,
        cache_records: None,
    }
}

impl Default for CheckChainDnsResult {
    fn default() -> (r: Self)
        ensures
            r@ == empty_check(),
    {
        CheckChainDnsResult {
            redirect_id: None,
            dynamic_redirect_source: None,
            rule_id: None,
            rule_filter: None,
            query_filtered: false,
            records: None,
            cache_records: None,
        }
    }
}

/// The record types that can be asked for.
#[derive(Debug, Clone, Copy, PartialEq, Eq, Structural)]
pub enum LandscapeDnsRecordType {
    A,
    AAAA,
    HTTPS,
}

impl LandscapeDnsRecordType {
    /// The record type that a request stands for.
    pub open spec fn query_type(self) -> RecordType {
        match self {
            LandscapeDnsRecordType::A => RecordType::A,
            LandscapeDnsRecordType::AAAA => RecordType::AAAA,
            LandscapeDnsRecordType::HTTPS => RecordType::HTTPS,
        }
    }
}

/// The record type that a request stands for.
pub fn convert_record_type(t: LandscapeDnsRecordType) -> (r: RecordType)
    ensures
        r == t.query_type(),
{
    match t {
        LandscapeDnsRecordType::A => RecordType::A,
        LandscapeDnsRecordType::AAAA => RecordType::AAAA,
        LandscapeDnsRecordType::HTTPS => RecordType::HTTPS,
    }
}

#[derive(Debug)]
pub struct CheckDnsReq {
    /// The flow whose rules apply.
    pub flow_id: FlowId,
    /// The name, which may be international.
    pub domain: String,
    pub record_type: LandscapeDnsRecordType,
    /// Whether the filter of the rule is applied to the records that are shown.
    pub apply_filter: bool,
}

/// The text that is brought into ASCII form: without white space around it
/// and without dots at its end.
pub open spec fn bare_domain(domain: Seq<char>) -> Seq<char> {
    without_trailing(trimmed(domain), '.')
}

/// The name to look up for a name in ASCII form.
pub open spec fn query_name(ascii: Seq<char>) -> Seq<char> {
    lower(ascii) + "."@
}

/// The name that is looked up for a text, where it has an ASCII form.
pub open spec fn looked_up(domain: Seq<char>) -> Option<Seq<char>> {
    match ascii_form(bare_domain(domain)) {
        Some(ascii) => Some(query_name(ascii)),
        None => None,
    }
}

impl CheckDnsReq {
    /// The name to look up, given its ASCII form if it has one.
    pub fn domain_from_ascii(&self, ascii: Option<String>) -> (r: Result<String, DnsError>)
        ensures
            match (r, ascii) {
                (Ok(name), Some(a)) => name@ == query_name(a@),
                (Err(e), None) => e == (DnsError::Invalid { domain: self.domain }),
                _ => false,
            },
    {
        match ascii {
            Some(a) => Ok(to_lower(&a).concat(".")),
            None => Err(DnsError::Invalid { domain: self.domain.clone() }),
        }
    }

    /// The name to look up: in ASCII form, lower case and with a single dot at
    /// its end.
    pub fn get_domain(&self) -> (r: Result<String, DnsError>)
        ensures
            match looked_up(self.domain@) {
                Some(name) => r is Ok && r->Ok_0@ == name,
                None => r == Err::<String, DnsError>(DnsError::Invalid { domain: self.domain }),
            },
    {
        let no_dot = trim_end_char(&trim(&self.domain), '.');
        self.domain_from_ascii(to_ascii(&no_dot))
    }
}

/// So many dots.
pub open spec fn dots(n: nat) -> Seq<char> {
    Seq::new(n, |i: int| '.')
}

/// Whether a text is white space alone.
pub open spec fn blank(s: Seq<char>) -> bool {
    forall|i: int| 0 <= i < s.len() ==> is_white_space(#[trigger] s[i])
}

proof fn lemma_trim_start_blank(before: Seq<char>, s: Seq<char>)
    requires
        blank(before),
        s.len() > 0,
        !is_white_space(s[0]),
    ensures
        trim_start(before + s) == s,
    decreases before.len(),
{
    let whole = before + s;
    if before.len() == 0 {
        assert(whole =~= s);
    } else {
        let rest = before.subrange(1, before.len() as int);
        assert forall|i: int| 0 <= i < rest.len() implies is_white_space(#[trigger] rest[i]) by {
            assert(rest[i] == before[i + 1]);
        }
        assert(whole[0] == before[0]);
        assert(whole.subrange(1, whole.len() as int) =~= rest + s);
        lemma_trim_start_blank(rest, s);
    }
}

proof fn lemma_trim_end_blank(s: Seq<char>, after: Seq<char>)
    requires
        blank(after),
        s.len() > 0,
        !is_white_space(s.last()),
    ensures
        trim_end(s + after) == s,
    decreases after.len(),
{
    let whole = s + after;
    if after.len() == 0 {
        assert(whole =~= s);
    } else {
        let rest = after.drop_last();
        assert(whole.last() == after[after.len() - 1]);
        assert(whole.drop_last() =~= s + rest);
        lemma_trim_end_blank(s, rest);
    }
}

proof fn lemma_dots_dropped(s: Seq<char>, n: nat)
    requires
        s.len() > 0,
        s.last() != '.',
    ensures
        without_trailing(s + dots(n), '.') == s,
    decreases n,
{
    let whole = s + dots(n);
    if n == 0 {
        assert(whole =~= s);
    } else {
        assert(whole.drop_last() =~= s + dots((n - 1) as nat));
        lemma_dots_dropped(s, (n - 1) as nat);
    }
}

/// White space around a name and dots at its end make no difference to what is
/// looked up.
pub proof fn law_spaces_and_dots_ignored(
    before: Seq<char>,
    name: Seq<char>,
    n: nat,
    after: Seq<char>,
)
    requires
        blank(before),
        blank(after),
        name.len() > 0,
        !is_white_space(name[0]),
        !is_white_space(name.last()),
        name.last() != '.',
    ensures
        bare_domain(before + name + dots(n) + after) == name,
        looked_up(before + name + dots(n) + after) == looked_up(name),
{
    let core = name + dots(n);
    assert(before + name + dots(n) + after =~= before + (core + after));
    assert((core + after)[0] == name[0]);
    lemma_trim_start_blank(before, core + after);
    if n > 0 {
        assert(core.last() == '.');
    } else {
        assert(core =~= name);
    }
    lemma_trim_end_blank(core, after);
    lemma_dots_dropped(name, n);
    assert(name + dots(0) + Seq::<char>::empty() =~= name);
    let none = Seq::<char>::empty();
    assert(none + (name + none) =~= name);
    lemma_trim_start_blank(none, name + none);
    lemma_trim_end_blank(name, none);
    assert(name + none =~= name);
    lemma_dots_dropped(name, 0);
    assert(name + dots(0) =~= name);
}

/// However a plain name is spelled, with capitals, white space around it or
/// dots at its end, it is looked up in lower case with one dot at its end; and
/// so is that name itself.
pub proof fn law_one_name_for_every_spelling(
    name: Seq<char>,
    before: Seq<char>,
    spelled: Seq<char>,
    n: nat,
    after: Seq<char>,
)
    requires
        plain_domain(name),
        name.len() > 0,
        name.last() != '.',
        lower(name) == name,
        plain_domain(spelled),
        lower(spelled) == name,
        blank(before),
        blank(after),
    ensures
        looked_up(before + spelled + dots(n) + after) == Some(name + "."@),
        looked_up(name + "."@) == Some(name + "."@),
{
    lemma_lower_last(spelled);
    assert(plain_char(spelled[0]));
    assert(plain_char(spelled[spelled.len() - 1]));
    assert(plain_char(name[0]));
    assert(plain_char(name[name.len() - 1]));
    law_spaces_and_dots_ignored(before, spelled, n, after);
    let none = Seq::<char>::empty();
    law_spaces_and_dots_ignored(none, spelled, 0, none);
    law_spaces_and_dots_ignored(none, name, 1, none);
    assert(none + spelled + dots(0) + none =~= spelled);
    reveal_strlit(".");
    assert(none + name + dots(1) + none =~= name + "."@);
}

proof fn lemma_lower_last(s: Seq<char>)
    ensures
        lower(s).len() == s.len(),
        s.len() > 0 && s.last() == '.' ==> lower(s).last() == '.',
{
}

} // verus!

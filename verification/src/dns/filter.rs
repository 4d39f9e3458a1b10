//! Filtering answers by address family.
use vstd::prelude::*;
use crate::dns::types::{
    param_views, record_views, DnsOutcome, FilterResult, RData, RDataView, Record, RecordType,
    RecordView, ResponseCode, SvcParam, SvcParamView, Svcb, SvcbView,
};

verus! {

/// Whether a rule's filter turns away the whole query.
pub open spec fn type_filtered(query_type: RecordType, filter: FilterResult) -> bool {
    (query_type is A && filter is OnlyIPv6) || (query_type is AAAA && filter is OnlyIPv4)
}

pub fn is_type_filtered(query_type: RecordType, filter: &FilterResult) -> (r: bool)
    ensures
        r == type_filtered(query_type, *filter),
{
    match (query_type, filter) {
        (RecordType::A, FilterResult::OnlyIPv6) => true,
        (RecordType::AAAA, FilterResult::OnlyIPv4) => true,
        _ => false,
    }
}

/// Whether a filter lets a record through.
pub open spec fn record_kept(r: RecordView, filter: FilterResult) -> bool {
    !type_filtered(r.data.record_type(), filter)
}

/// The number of the address hint that a filter takes out: that of the family
/// which it turns away.
pub open spec fn hint_removed(filter: FilterResult) -> Option<u16> {
    match filter {
        FilterResult::Unfilter => None,
        FilterResult::OnlyIPv4 => Some(6),
        FilterResult::OnlyIPv6 => Some(4),
    }
}

/// A service binding without the parameters of the given number.
pub open spec fn without_param(s: SvcbView, key: u16) -> SvcbView {
    SvcbView { params: s.params.filter(|p: SvcParamView| p.key() != key), ..s }
}

/// A record as a filter lets it through: an HTTPS record without the hints
/// that would lead a client round the filter.
pub open spec fn record_stripped(r: RecordView, filter: FilterResult) -> RecordView {
    match (r.data, hint_removed(filter)) {
        (RDataView::HTTPS(s), Some(key)) => RecordView {
            data: RDataView::HTTPS(without_param(s, key)),
            ..r
        },
        _ => r,
    }
}

/// What a filter lets through of a list of records, in order.
pub open spec fn filtered(records: Seq<RecordView>, filter: FilterResult) -> Seq<RecordView>
    decreases records.len(),
{
    if records.len() == 0 {
        Seq::empty()
    } else {
        let before = filtered(records.drop_last(), filter);
        if record_kept(records.last(), filter) {
            before.push(record_stripped(records.last(), filter))
        } else {
            before
        }
    }
}

fn strip_params(params: Vec<SvcParam>, key: u16) -> (r: Vec<SvcParam>)
    ensures
        param_views(r@) == param_views(params@).filter(|p: SvcParamView| p.key() != key),
{
    let ghost all = param_views(params@);
    let ghost keep = |p: SvcParamView| p.key() != key;
    let mut kept: Vec<SvcParam> = Vec::new();
    proof {
        reveal(Seq::filter);
        assert(all.take(0) =~= Seq::empty());
        assert(param_views(kept@) =~= all.take(0).filter(keep));
    }
    for param in it: params
        invariant
            param_views(it.seq()) == all,
            keep == (|p: SvcParamView| p.key() != key),
            param_views(kept@) == all.take(it.index() as int).filter(keep),
    {
        let ghost before = kept@;
        let ghost i = it.index() as int;
        proof {
            reveal(Seq::filter);
            assert(all.take(i + 1).drop_last() =~= all.take(i));
            assert(all[i] == param@);
        }
        if param.key() != key {
            let ghost view = param@;
            kept.push(param);
            assert(param_views(kept@) =~= param_views(before).push(view));
        }
    }
    assert(all.take(all.len() as int) =~= all);
    kept
}

fn strip_record(record: Record, filter: &FilterResult) -> (r: Record)
    ensures
        r@ == record_stripped(record@, *filter),
{
    let key: u16 = match filter {
        FilterResult::Unfilter => {
            return record;
        },
        FilterResult::OnlyIPv4 => 6,
        FilterResult::OnlyIPv6 => 4,
    };
    match record.data {
        RData::HTTPS(https) => {
            let params = strip_params(https.params, key);
            Record {
                name: record.name,
                ttl: record.ttl,
                data: RData::HTTPS(
                    Svcb { priority: https.priority, target: https.target, params },
                ),
            }
        },
        data => Record { name: record.name, ttl: record.ttl, data },
    }
}

pub fn filter_result(un_filter_records: Vec<Record>, filter: &FilterResult) -> (r: Vec<Record>)
    ensures
        record_views(r@) == filtered(record_views(un_filter_records@), *filter),
{
    let ghost all = record_views(un_filter_records@);
    let mut kept: Vec<Record> = Vec::new();
    proof {
        assert(all.take(0) =~= Seq::empty());
        assert(record_views(kept@) =~= filtered(all.take(0), *filter));
    }
    for record in it: un_filter_records
        invariant
            record_views(it.seq()) == all,
            record_views(kept@) == filtered(all.take(it.index() as int), *filter),
    {
        let ghost before = kept@;
        let ghost i = it.index() as int;
        proof {
            assert(all.take(i + 1).drop_last() =~= all.take(i));
            assert(all[i] == record@);
        }
        if !is_type_filtered(record.record_type(), filter) {
            let stripped = strip_record(record, filter);
            let ghost view = stripped@;
            kept.push(stripped);
            assert(record_views(kept@) =~= record_views(before).push(view));
        }
    }
    assert(all.take(all.len() as int) =~= all);
    kept
}

/// The code that an outcome is answered with.
pub open spec fn code_of_outcome(outcome: DnsOutcome) -> ResponseCode {
    match outcome {
        DnsOutcome::NxDomain => ResponseCode::NXDomain,
        DnsOutcome::Error => ResponseCode::ServFail,
        _ => ResponseCode::NoError,
    }
}

pub fn outcome_to_response_code(outcome: DnsOutcome) -> (r: ResponseCode)
    ensures
        r == code_of_outcome(outcome),
{
    match outcome {
        DnsOutcome::NxDomain => ResponseCode::NXDomain,
        DnsOutcome::Error => ResponseCode::ServFail,
        _ => ResponseCode::NoError,
    }
}

/// Without a filter everything comes through as it is.
pub proof fn law_no_filter_changes_nothing(records: Seq<RecordView>)
    ensures
        filtered(records, FilterResult::Unfilter) == records,
    decreases records.len(),
{
    if records.len() > 0 {
        law_no_filter_changes_nothing(records.drop_last());
        assert(records.drop_last().push(records.last()) =~= records);
    }
}

/// Nothing of the family that is turned away comes through: no address of it,
/// and no hint at one.
pub proof fn law_filter_keeps_family_out(records: Seq<RecordView>, filter: FilterResult, i: int)
    requires
        0 <= i < filtered(records, filter).len(),
    ensures
        ({
            let r = filtered(records, filter)[i];
            &&& filter is OnlyIPv4 ==> !(r.data is AAAA)
            &&& filter is OnlyIPv6 ==> !(r.data is A)
            &&& r.data matches RDataView::HTTPS(s) ==> forall|k: int|
                0 <= k < s.params.len() ==> Some((#[trigger] s.params[k]).key()) != hint_removed(
                    filter,
                )
        }),
    decreases records.len(),
{
    if records.len() > 0 {
        let before = filtered(records.drop_last(), filter);
        if i < before.len() {
            law_filter_keeps_family_out(records.drop_last(), filter, i);
        } else if let RDataView::HTTPS(s) = records.last().data {
            if let Some(key) = hint_removed(filter) {
                let keep = |p: SvcParamView| p.key() != key;
                let params = s.params.filter(keep);
                assert forall|k: int| 0 <= k < params.len() implies (#[trigger] params[k]).key()
                    != key by {
                    s.params.lemma_filter_pred(keep, k);
                }
            }
        }
    }
}

/// Filtering twice is the same as once.
pub proof fn law_filter_idempotent(records: Seq<RecordView>, filter: FilterResult)
    ensures
        filtered(filtered(records, filter), filter) == filtered(records, filter),
    decreases records.len(),
{
    if records.len() > 0 {
        let before = filtered(records.drop_last(), filter);
        let last = records.last();
        law_filter_idempotent(records.drop_last(), filter);
        if record_kept(last, filter) {
            let once = record_stripped(last, filter);
            let whole = before.push(once);
            assert(whole.drop_last() =~= before);
            if let RDataView::HTTPS(s) = last.data {
                if let Some(key) = hint_removed(filter) {
                    let keep = |p: SvcParamView| p.key() != key;
                    lemma_filter_twice(s.params, keep);
                    assert(record_stripped(once, filter) == once);
                }
            }
        }
    }
}

proof fn lemma_filter_twice(s: Seq<SvcParamView>, keep: spec_fn(SvcParamView) -> bool)
    ensures
        s.filter(keep).filter(keep) == s.filter(keep),
    decreases s.len(),
{
    reveal(Seq::filter);
    if s.len() > 0 {
        lemma_filter_twice(s.drop_last(), keep);
        let before = s.drop_last().filter(keep);
        if keep(s.last()) {
            assert(before.push(s.last()).drop_last() =~= before);
        }
    }
}

/// Whether a filter takes a parameter out of an HTTPS record: the IPv6 hint
/// where only IPv4 is let through, and the IPv4 hint where only IPv6 is.
pub open spec fn is_foreign_hint(p: SvcParamView, filter: FilterResult) -> bool {
    match (filter, p) {
        (FilterResult::OnlyIPv4, SvcParamView::Ipv6Hint(_)) => true,
        (FilterResult::OnlyIPv4, SvcParamView::Other(number, _)) => number == 6,
        (FilterResult::OnlyIPv6, SvcParamView::Ipv4Hint(_)) => true,
        (FilterResult::OnlyIPv6, SvcParamView::Other(number, _)) => number == 4,
        _ => false,
    }
}

/// Records are filtered one by one and keep their order. An A record comes
/// through unchanged unless only IPv6 is let through, and an AAAA record
/// unless only IPv4 is. Every other record comes through every filter, and
/// unchanged unless it is an HTTPS record; one of those loses the hints at
/// addresses of the family that is kept out, and nothing else.
pub proof fn law_each_record_is_filtered_alone(
    front: Seq<RecordView>,
    r: RecordView,
    back: Seq<RecordView>,
    filter: FilterResult,
)
    ensures
        filtered(Seq::empty(), filter) == Seq::<RecordView>::empty(),
        ({
            let whole = filtered(front + seq![r] + back, filter);
            let before = filtered(front, filter);
            let after = filtered(back, filter);
            match r.data {
                RDataView::A(_) => whole == if filter == FilterResult::OnlyIPv6 {
                    before + after
                } else {
                    before + seq![r] + after
                },
                RDataView::AAAA(_) => whole == if filter == FilterResult::OnlyIPv4 {
                    before + after
                } else {
                    before + seq![r] + after
                },
                RDataView::HTTPS(s) => {
                    let params = s.params.filter(|p: SvcParamView| !is_foreign_hint(p, filter));
                    let data = RDataView::HTTPS(
                        SvcbView { priority: s.priority, target: s.target, params },
                    );
                    whole == before + seq![RecordView { name: r.name, ttl: r.ttl, data }] + after
                },
                _ => whole == before + seq![r] + after,
            }
        }),
    decreases back.len(),
{
    let all = front + seq![r] + back;
    let before = filtered(front, filter);
    let after = filtered(back, filter);
    lemma_stripped(r, filter);
    if back.len() == 0 {
        assert(all.drop_last() =~= front);
        assert(all.last() == r);
    } else {
        let less = back.drop_last();
        assert(all.drop_last() =~= front + seq![r] + less);
        assert(all.last() == back.last());
        law_each_record_is_filtered_alone(front, r, less, filter);
    }
    assert(filtered(all, filter) =~= if record_kept(r, filter) {
        before + seq![record_stripped(r, filter)] + after
    } else {
        before + after
    });
}

proof fn lemma_stripped(r: RecordView, filter: FilterResult)
    ensures
        match r.data {
            RDataView::HTTPS(s) => record_stripped(r, filter) == (RecordView {
                data: RDataView::HTTPS(
                    SvcbView {
                        params: s.params.filter(|p: SvcParamView| !is_foreign_hint(p, filter)),
                        ..s
                    },
                ),
                ..r
            }),
            _ => record_stripped(r, filter) == r,
        },
{
    if let RDataView::HTTPS(s) = r.data {
        let keep = |p: SvcParamView| !is_foreign_hint(p, filter);
        match hint_removed(filter) {
            Some(key) => {
                let other = |p: SvcParamView| p.key() != key;
                lemma_same_filter(s.params, keep, other);
            },
            None => {
                lemma_filter_all(s.params, keep);
            },
        }
    }
}

proof fn lemma_same_filter(
    s: Seq<SvcParamView>,
    one: spec_fn(SvcParamView) -> bool,
    other: spec_fn(SvcParamView) -> bool,
)
    requires
        forall|p: SvcParamView| #[trigger] one(p) == other(p),
    ensures
        s.filter(one) == s.filter(other),
    decreases s.len(),
{
    reveal(Seq::filter);
    if s.len() > 0 {
        lemma_same_filter(s.drop_last(), one, other);
    }
}

proof fn lemma_filter_all(s: Seq<SvcParamView>, keep: spec_fn(SvcParamView) -> bool)
    requires
        forall|p: SvcParamView| #[trigger] keep(p),
    ensures
        s.filter(keep) == s,
    decreases s.len(),
{
    reveal(Seq::filter);
    if s.len() > 0 {
        lemma_filter_all(s.drop_last(), keep);
        assert(s.drop_last().push(s.last()) =~= s);
    }
}

/// A query for addresses of a family is turned away exactly where the other
/// family alone is let through, and no other query is.
pub proof fn law_only_the_other_family_is_turned_away(query_type: RecordType, filter: FilterResult)
    ensures
        type_filtered(query_type, filter) <==> (query_type, filter) == (
            RecordType::A,
            FilterResult::OnlyIPv6,
        ) || (query_type, filter) == (RecordType::AAAA, FilterResult::OnlyIPv4),
{
}

/// A name that does not exist and a failure are answered with their codes;
/// every other outcome is no error.
pub proof fn law_codes_of_outcomes(outcome: DnsOutcome)
    ensures
        code_of_outcome(outcome) == ResponseCode::NXDomain <==> outcome == DnsOutcome::NxDomain,
        code_of_outcome(outcome) == ResponseCode::ServFail <==> outcome == DnsOutcome::Error,
        code_of_outcome(outcome) == ResponseCode::NoError <==> outcome != DnsOutcome::NxDomain
            && outcome != DnsOutcome::Error,
{
}

} // verus!

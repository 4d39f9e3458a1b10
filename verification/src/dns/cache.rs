//! Cached answers: how long they hold, what they say, and what becomes of them
//! when the rules change.
use vstd::prelude::*;
use crate::dns::runtime::{RuleView, RuntimeDnsRule};
use crate::dns::types::{
    copy_records, record_views, DnsRuntimeMarkInfo, FilterResult, Record, RecordView, ResponseCode,
};
use crate::ids::ConfigId;
use crate::viewed::views;

verus! {

/// The longest that a cached answer holds after the rules changed, in seconds.
pub const RULE_REFRESH_TTL_CAP: u32 = 5;

/// A rule as it bears on one name.
#[derive(Debug, Clone, Copy, PartialEq, Eq, Structural)]
pub struct ResolutionRule {
    pub config_id: ConfigId,
    pub order: u32,
    pub filter: FilterResult,
    pub mark: DnsRuntimeMarkInfo,
    /// Whether the name falls under the rule.
    pub matches: bool,
}

/// A cached answer. The time of its insertion is in nanoseconds on a clock
/// that does not go back.
#[derive(Debug)]
pub struct CacheDNSItem {
    pub rdatas: Vec<Record>,
    pub response_code: ResponseCode,
    pub mark: DnsRuntimeMarkInfo,
    pub insert_time: u128,
    pub min_ttl: u32,
    pub filter: FilterResult,
    pub matched_rule_id: Option<ConfigId>,
    pub matched_rule_order: Option<u32>,
}

pub struct CacheItemView {
    pub rdatas: Seq<RecordView>,
    pub response_code: ResponseCode,
    pub mark: DnsRuntimeMarkInfo,
    pub insert_time: u128,
    pub min_ttl: u32,
    pub filter: FilterResult,
    pub matched_rule_id: Option<ConfigId>,
    pub matched_rule_order: Option<u32>,
}

impl View for CacheDNSItem {
    type V = CacheItemView;

    open spec fn view(&self) -> CacheItemView {
        CacheItemView {
            rdatas: record_views(self.rdatas@),
            response_code: self.response_code,
            mark: self.mark,
            insert_time: self.insert_time,
            min_ttl: self.min_ttl,
            filter: self.filter,
            matched_rule_id: self.matched_rule_id,
            matched_rule_order: self.matched_rule_order,
        }
    }
}

/// What the cache says to a query.
#[derive(Debug)]
pub struct CachedAnswer {
    pub records: Vec<Record>,
    pub filter: FilterResult,
    pub response_code: ResponseCode,
}

pub struct CachedView {
    pub records: Seq<RecordView>,
    pub filter: FilterResult,
    pub response_code: ResponseCode,
}

impl View for CachedAnswer {
    type V = CachedView;

    open spec fn view(&self) -> CachedView {
        CachedView {
            records: record_views(self.records@),
            filter: self.filter,
            response_code: self.response_code,
        }
    }
}

/// The view of an optional cached answer.
pub open spec fn opt_cached(o: Option<CachedAnswer>) -> Option<CachedView> {
    match o {
        Some(c) => Some(c@),
        None => None,
    }
}

/// How many whole seconds an answer has been in the cache, as a 32-bit number.
pub open spec fn age_secs(item: CacheItemView, now: u128) -> u32 {
    if now < item.insert_time {
        0
    } else {
        (((now - item.insert_time) / 1_000_000_000) % 0x1_0000_0000) as u32
    }
}

/// The records with the given time to live.
pub open spec fn with_ttl(records: Seq<RecordView>, ttl: u32) -> Seq<RecordView> {
    records.map_values(|r: RecordView| RecordView { ttl, ..r })
}

/// What a cached answer says: nothing once it is older than its time to live,
/// else its records with what is left of that time.
pub open spec fn cached_answer(item: CacheItemView, now: u128) -> Option<CachedView> {
    if age_secs(item, now) > item.min_ttl {
        None
    } else {
        Some(
            CachedView {
                records: with_ttl(item.rdatas, (item.min_ttl - age_secs(item, now)) as u32),
                filter: item.filter,
                response_code: item.response_code,
            },
        )
    }
}

fn records_with_ttl(records: &Vec<Record>, ttl: u32) -> (r: Vec<Record>)
    ensures
        record_views(r@) == with_ttl(record_views(records@), ttl),
{
    let mut r: Vec<Record> = Vec::new();
    let n: usize = records.len();
    for i in 0..n
        invariant
            n == records@.len(),
            r@.len() == i,
            forall|k: int|
                0 <= k < i ==> (#[trigger] r@[k])@ == (RecordView { ttl, ..records@[k]@ }),
    {
        let mut record = records[i].clone();
        record.ttl = ttl;
        r.push(record);
    }
    assert(record_views(r@) =~= with_ttl(record_views(records@), ttl));
    r
}

pub fn lookup_cache(item: &CacheDNSItem, now: u128) -> (r: Option<CachedAnswer>)
    ensures
        opt_cached(r) == cached_answer(item@, now),
{
    let age: u32 = if now < item.insert_time {
        0
    } else {
        (((now - item.insert_time) / 1_000_000_000) % 0x1_0000_0000) as u32
    };
    if age > item.min_ttl {
        return None;
    }
    Some(
        CachedAnswer {
            records: records_with_ttl(&item.rdatas, item.min_ttl - age),
            filter: item.filter,
            response_code: item.response_code,
        },
    )
}

/// The shortest time to live among the records; without records the given one.
pub open spec fn shortest_ttl(records: Seq<RecordView>, without: u32) -> u32
    decreases records.len(),
{
    if records.len() == 0 {
        without
    } else if records.len() == 1 {
        records[0].ttl
    } else {
        let before = shortest_ttl(records.drop_last(), without);
        if records.last().ttl < before {
            records.last().ttl
        } else {
            before
        }
    }
}

fn min_ttl_of(records: &Vec<Record>, without: u32) -> (r: u32)
    ensures
        r == shortest_ttl(record_views(records@), without),
{
    let n: usize = records.len();
    if n == 0 {
        return without;
    }
    let ghost all = record_views(records@);
    let mut least: u32 = records[0].ttl;
    assert(all.take(1).len() == 1);
    for i in 1..n
        invariant
            n == records@.len(),
            all == record_views(records@),
            least == shortest_ttl(all.take(i as int), without),
    {
        assert(all.take(i + 1).drop_last() =~= all.take(i as int));
        assert(all.take(i + 1).last() == records@[i as int]@);
        if records[i].ttl < least {
            least = records[i].ttl;
        }
    }
    assert(all.take(n as int) =~= all);
    least
}

/// The item that an answer is cached as; an answer whose time to live is zero
/// is not cached.
pub open spec fn item_for(
    records: Seq<RecordView>,
    code: ResponseCode,
    rule: ResolutionRule,
    negative_ttl: u32,
    now: u128,
) -> Option<CacheItemView> {
    let ttl = shortest_ttl(records, negative_ttl);
    if ttl == 0 {
        None
    } else {
        Some(
            CacheItemView {
                rdatas: records,
                response_code: code,
                mark: rule.mark,
                insert_time: now,
                min_ttl: ttl,
                filter: rule.filter,
                matched_rule_id: Some(rule.config_id),
                matched_rule_order: Some(rule.order),
            },
        )
    }
}

/// The view of an optional item.
pub open spec fn opt_item(o: Option<CacheDNSItem>) -> Option<CacheItemView> {
    match o {
        Some(i) => Some(i@),
        None => None,
    }
}

/// The item that an answer is cached as. Without a rule it is remembered under
/// none.
pub fn new_cache_item(
    records: Vec<Record>,
    response_code: ResponseCode,
    mark: DnsRuntimeMarkInfo,
    filter: FilterResult,
    matched_rule_id: Option<ConfigId>,
    matched_rule_order: Option<u32>,
    negative_ttl: u32,
    now: u128,
) -> (r: Option<CacheDNSItem>)
    ensures
        opt_item(r) == ({
            let ttl = shortest_ttl(record_views(records@), negative_ttl);
            if ttl == 0 {
                None
            } else {
                Some(
                    CacheItemView {
                        rdatas: record_views(records@),
                        response_code,
                        mark,
                        insert_time: now,
                        min_ttl: ttl,
                        filter,
                        matched_rule_id,
                        matched_rule_order,
                    },
                )
            }
        }),
{
    let min_ttl: u32 = min_ttl_of(&records, negative_ttl);
    if min_ttl == 0 {
        return None;
    }
    Some(
        CacheDNSItem {
            rdatas: records,
            response_code,
            mark,
            insert_time: now,
            min_ttl,
            filter,
            matched_rule_id,
            matched_rule_order,
        },
    )
}

/// The item that an answer under a rule is cached as.
pub fn item_under_rule(
    records: Vec<Record>,
    response_code: ResponseCode,
    rule: &ResolutionRule,
    negative_ttl: u32,
    now: u128,
) -> (r: Option<CacheDNSItem>)
    ensures
        opt_item(r) == item_for(record_views(records@), response_code, *rule, negative_ttl, now),
{
    new_cache_item(
        records,
        response_code,
        rule.mark,
        rule.filter,
        Some(rule.config_id),
        Some(rule.order),
        negative_ttl,
        now,
    )
}

/// The first rule from number `i` on that the name falls under.
pub open spec fn first_match(rules: Seq<ResolutionRule>, i: int) -> Option<ResolutionRule>
    decreases rules.len() - i,
{
    if i < 0 || i >= rules.len() {
        None
    } else if rules[i].matches {
        Some(rules[i])
    } else {
        first_match(rules, i + 1)
    }
}

/// The first rule from number `i` on with the given place in the order.
pub open spec fn rule_of_order(rules: Seq<ResolutionRule>, order: u32, i: int) -> Option<
    ResolutionRule,
>
    decreases rules.len() - i,
{
    if i < 0 || i >= rules.len() {
        None
    } else if rules[i].order == order {
        Some(rules[i])
    } else {
        rule_of_order(rules, order, i + 1)
    }
}

pub fn find_rule(rules: &[ResolutionRule]) -> (r: Option<ResolutionRule>)
    ensures
        r == first_match(rules@, 0),
{
    let n: usize = rules.len();
    for i in 0..n
        invariant
            n == rules@.len(),
            first_match(rules@, 0) == first_match(rules@, i as int),
    {
        if rules[i].matches {
            return Some(rules[i]);
        }
    }
    None
}

/// The rule that a cached answer falls under now: the one that it was made
/// under where that still stands at its place and is for the name, else the
/// first that is.
pub open spec fn cache_rule(rules: Seq<ResolutionRule>, item: CacheItemView) -> Option<
    ResolutionRule,
> {
    let kept = match item.matched_rule_order {
        Some(order) => rule_of_order(rules, order, 0),
        None => None,
    };
    if kept is Some && item.matched_rule_id == Some(kept->0.config_id) && kept->0.matches {
        kept
    } else {
        first_match(rules, 0)
    }
}

pub fn find_cache_rule(rules: &[ResolutionRule], cache_item: &CacheDNSItem) -> (r: Option<
    ResolutionRule,
>)
    ensures
        r == cache_rule(rules@, cache_item@),
{
    if let Some(order) = cache_item.matched_rule_order {
        let n: usize = rules.len();
        let mut i: usize = 0;
        while i < n && rules[i].order != order
            invariant
                i <= n,
                n == rules@.len(),
                rule_of_order(rules@, order, 0) == rule_of_order(rules@, order, i as int),
            ensures
                i <= n,
                n == rules@.len(),
                rule_of_order(rules@, order, 0) == (if i < n {
                    Some(rules@[i as int])
                } else {
                    None
                }),
            decreases n - i,
        {
            i += 1;
        }
        if i < n {
            let rule = rules[i];
            let same_id: bool = match cache_item.matched_rule_id {
                Some(id) => id == rule.config_id,
                None => false,
            };
            if same_id && rule.matches {
                return Some(rule);
            }
        }
    }
    find_rule(rules)
}

/// A cached answer under its new rule, which holds no longer than the cap.
pub open spec fn migrated(
    item: CacheItemView,
    rule: ResolutionRule,
    ttl_cap: Option<u32>,
) -> CacheItemView {
    CacheItemView {
        mark: rule.mark,
        min_ttl: if ttl_cap is Some && ttl_cap->0 < item.min_ttl {
            ttl_cap->0
        } else {
            item.min_ttl
        },
        filter: rule.filter,
        matched_rule_id: Some(rule.config_id),
        matched_rule_order: Some(rule.order),
        ..item
    }
}

/// What becomes of a cached answer when the rules change: it is dropped where
/// its name falls under no rule.
pub fn migrate_item(
    cache_item: &CacheDNSItem,
    rules: &[ResolutionRule],
    ttl_cap: Option<u32>,
) -> (r: Option<CacheDNSItem>)
    ensures
        opt_item(r) == (match cache_rule(rules@, cache_item@) {
            Some(rule) => Some(migrated(cache_item@, rule, ttl_cap)),
            None => None,
        }),
{
    match find_cache_rule(rules, cache_item) {
        Some(rule) => {
            let min_ttl: u32 = match ttl_cap {
                Some(cap) => if cap < cache_item.min_ttl {
                    cap
                } else {
                    cache_item.min_ttl
                },
                None => cache_item.min_ttl,
            };
            Some(
                CacheDNSItem {
                    rdatas: copy_records(&cache_item.rdatas),
                    response_code: cache_item.response_code,
                    mark: rule.mark,
                    insert_time: cache_item.insert_time,
                    min_ttl,
                    filter: rule.filter,
                    matched_rule_id: Some(rule.config_id),
                    matched_rule_order: Some(rule.order),
                },
            )
        },
        None => None,
    }
}

/// Whether rules stand in their order, no two at one place.
pub open spec fn in_order(rules: Seq<RuleView>) -> bool {
    forall|i: int, j: int|
        0 <= i < j < rules.len() ==> (#[trigger] rules[i]).order < (#[trigger] rules[j]).order
}

/// The rule that a list puts at a place: the last one for it.
pub open spec fn rule_at(rules: Seq<RuleView>, order: u32) -> Option<RuleView>
    decreases rules.len(),
{
    if rules.len() == 0 {
        None
    } else if rules.last().order == order {
        Some(rules.last())
    } else {
        rule_at(rules.drop_last(), order)
    }
}

proof fn lemma_rule_at_unique(rules: Seq<RuleView>, i: int)
    requires
        in_order(rules),
        0 <= i < rules.len(),
    ensures
        rule_at(rules, rules[i].order) == Some(rules[i]),
    decreases rules.len(),
{
    if i < rules.len() - 1 {
        let front = rules.drop_last();
        assert(front[i] == rules[i]);
        assert(rules[i].order < rules[rules.len() - 1].order);
        assert(in_order(front));
        lemma_rule_at_unique(front, i);
    }
}

proof fn lemma_rule_at_none(rules: Seq<RuleView>, order: u32)
    requires
        forall|i: int| 0 <= i < rules.len() ==> (#[trigger] rules[i]).order != order,
    ensures
        rule_at(rules, order) is None,
    decreases rules.len(),
{
    if rules.len() > 0 {
        let front = rules.drop_last();
        assert(rules.last() == rules[rules.len() - 1]);
        assert forall|i: int| 0 <= i < front.len() implies (#[trigger] front[i]).order != order by {
            assert(front[i] == rules[i]);
        }
        lemma_rule_at_none(front, order);
    }
}

/// What a place holds follows from where, if anywhere, it stands in the list.
proof fn lemma_rule_at(rules: Seq<RuleView>, order: u32)
    requires
        in_order(rules),
    ensures
        match rule_at(rules, order) {
            Some(r) => exists|i: int| 0 <= i < rules.len() && rules[i] == r && r.order == order,
            None => forall|i: int| 0 <= i < rules.len() ==> (#[trigger] rules[i]).order != order,
        },
{
    if exists|i: int| 0 <= i < rules.len() && (#[trigger] rules[i]).order == order {
        let i = choose|i: int| 0 <= i < rules.len() && (#[trigger] rules[i]).order == order;
        lemma_rule_at_unique(rules, i);
    } else {
        lemma_rule_at_none(rules, order);
    }
}

/// What the places hold once the rule at a position was exchanged for another
/// one of the same place.
proof fn lemma_exchanged(before: Seq<RuleView>, at: int, rule: RuleView, o: u32)
    requires
        in_order(before),
        0 <= at < before.len(),
        before[at].order == rule.order,
    ensures
        in_order(before.update(at, rule)),
        rule_at(before.update(at, rule), o) == (if o == rule.order {
            Some(rule)
        } else {
            rule_at(before, o)
        }),
{
    let after = before.update(at, rule);
    assert(in_order(after));
    lemma_rule_at(before, o);
    lemma_rule_at_unique(after, at);
    if o != rule.order {
        if let Some(r) = rule_at(before, o) {
            let i = choose|i: int| 0 <= i < before.len() && before[i] == r && r.order == o;
            assert(after[i] == r);
            lemma_rule_at_unique(after, i);
        } else {
            assert forall|i: int| 0 <= i < after.len() implies (#[trigger] after[i]).order != o by {
                if i != at {
                    assert(after[i] == before[i]);
                }
            }
            lemma_rule_at_none(after, o);
        }
    }
}

/// What the places hold once a rule was put in between.
proof fn lemma_inserted(before: Seq<RuleView>, p: int, rule: RuleView, o: u32)
    requires
        in_order(before),
        0 <= p <= before.len(),
        forall|k: int| 0 <= k < p ==> (#[trigger] before[k]).order < rule.order,
        p < before.len() ==> before[p].order > rule.order,
    ensures
        in_order(before.insert(p, rule)),
        rule_at(before.insert(p, rule), o) == (if o == rule.order {
            Some(rule)
        } else {
            rule_at(before, o)
        }),
{
    let after = before.insert(p, rule);
    assert forall|i: int, j: int| 0 <= i < j < after.len() implies (#[trigger] after[i]).order < (
    #[trigger] after[j]).order by {
        if i < p {
            assert(after[i] == before[i]);
        } else if i > p {
            assert(after[i] == before[i - 1]);
        }
        if j < p {
            assert(after[j] == before[j]);
        } else if j > p {
            assert(after[j] == before[j - 1]);
            assert(before[p].order > rule.order);
            if j - 1 > p {
                assert(before[p].order < before[j - 1].order);
            }
        }
    }
    lemma_rule_at(before, o);
    lemma_rule_at_unique(after, p);
    if o != rule.order {
        if let Some(r) = rule_at(before, o) {
            let i = choose|i: int| 0 <= i < before.len() && before[i] == r && r.order == o;
            let k = if i < p {
                i
            } else {
                i + 1
            };
            assert(after[k] == r);
            lemma_rule_at_unique(after, k);
        } else {
            assert forall|i: int| 0 <= i < after.len() implies (#[trigger] after[i]).order != o by {
                if i < p {
                    assert(after[i] == before[i]);
                } else if i > p {
                    assert(after[i] == before[i - 1]);
                }
            }
            lemma_rule_at_none(after, o);
        }
    }
}

/// Puts a rule at its place, in place of the one that stood there.
fn place_rule(rules: &mut Vec<RuntimeDnsRule>, rule: RuntimeDnsRule)
    requires
        in_order(views(old(rules)@)),
    ensures
        in_order(views(final(rules)@)),
        forall|o: u32|
            #[trigger] rule_at(views(final(rules)@), o) == if o == rule.order {
                Some(rule@)
            } else {
                rule_at(views(old(rules)@), o)
            },
{
    let n: usize = rules.len();
    let ghost before = views(rules@);
    let mut at: usize = 0;
    while at < n && rules[at].order < rule.order
        invariant
            at <= n,
            n == rules@.len(),
            views(rules@) == before,
            forall|k: int| 0 <= k < at ==> (#[trigger] before[k]).order < rule.order,
        ensures
            at <= n,
            n == rules@.len(),
            views(rules@) == before,
            forall|k: int| 0 <= k < at ==> (#[trigger] before[k]).order < rule.order,
            at < n ==> before[at as int].order >= rule.order,
        decreases n - at,
    {
        at += 1;
    }
    let ghost new = rule@;
    if at < n && rules[at].order == rule.order {
        rules.set(at, rule);
        proof {
            assert(views(rules@) =~= before.update(at as int, new));
            lemma_exchanged(before, at as int, new, 0);
            assert forall|o: u32| #[trigger] rule_at(views(rules@), o) == if o == new.order {
                Some(new)
            } else {
                rule_at(before, o)
            } by {
                lemma_exchanged(before, at as int, new, o);
            }
        }
    } else {
        rules.insert(at, rule);
        proof {
            assert(views(rules@) =~= before.insert(at as int, new));
            lemma_inserted(before, at as int, new, 0);
            assert forall|o: u32| #[trigger] rule_at(views(rules@), o) == if o == new.order {
                Some(new)
            } else {
                rule_at(before, o)
            } by {
                lemma_inserted(before, at as int, new, o);
            }
        }
    }
}

/// The rules in their order; of several for one place the last one stands.
pub fn build_resolves(dns_rules: Vec<RuntimeDnsRule>) -> (r: Vec<RuntimeDnsRule>)
    ensures
        in_order(views(r@)),
        forall|o: u32| #[trigger] rule_at(views(r@), o) == rule_at(views(dns_rules@), o),
{
    let ghost all = views(dns_rules@);
    let mut resolves: Vec<RuntimeDnsRule> = Vec::new();
    assert(all.take(0) =~= Seq::empty());
    for rule in it: dns_rules
        invariant
            views(it.seq()) == all,
            in_order(views(resolves@)),
            forall|o: u32| #[trigger]
                rule_at(views(resolves@), o) == rule_at(all.take(it.index() as int), o),
    {
        let ghost i = it.index() as int;
        let ghost before = views(resolves@);
        assert(all.take(i + 1).drop_last() =~= all.take(i));
        assert(all.take(i + 1).last() == rule@);
        place_rule(&mut resolves, rule);
        assert forall|o: u32| #[trigger]
            rule_at(views(resolves@), o) == rule_at(all.take(i + 1), o) by {
            assert(rule_at(before, o) == rule_at(all.take(i), o));
        }
    }
    assert(all.take(all.len() as int) =~= all);
    resolves
}

/// A cached answer never promises longer than any of the records did when it
/// was cached.
pub proof fn law_cached_ttl_within_records(
    records: Seq<RecordView>,
    code: ResponseCode,
    rule: ResolutionRule,
    negative_ttl: u32,
    inserted: u128,
    now: u128,
    i: int,
)
    requires
        0 <= i < records.len(),
        item_for(records, code, rule, negative_ttl, inserted) is Some,
        cached_answer(item_for(records, code, rule, negative_ttl, inserted)->0, now) is Some,
    ensures
        cached_answer(
            item_for(records, code, rule, negative_ttl, inserted)->0,
            now,
        )->0.records[i].ttl <= records[i].ttl,
{
    lemma_shortest(records, negative_ttl, i);
}

proof fn lemma_shortest(records: Seq<RecordView>, without: u32, i: int)
    requires
        0 <= i < records.len(),
    ensures
        shortest_ttl(records, without) <= records[i].ttl,
    decreases records.len(),
{
    if records.len() > 1 && i < records.len() - 1 {
        lemma_shortest(records.drop_last(), without, i);
    }
}

/// An answer just cached is given back with its records, all with the shortest
/// of their times.
pub proof fn law_fresh_answer_is_read_back(
    records: Seq<RecordView>,
    code: ResponseCode,
    rule: ResolutionRule,
    negative_ttl: u32,
    now: u128,
)
    requires
        item_for(records, code, rule, negative_ttl, now) is Some,
    ensures
        cached_answer(item_for(records, code, rule, negative_ttl, now)->0, now) == Some(
            CachedView {
                records: with_ttl(records, shortest_ttl(records, negative_ttl)),
                filter: rule.filter,
                response_code: code,
            },
        ),
{
}

/// A change of rules keeps an answer's records and age, and never makes it
/// hold longer.
pub proof fn law_migration_keeps_answer(
    item: CacheItemView,
    rule: ResolutionRule,
    ttl_cap: Option<u32>,
)
    ensures
        migrated(item, rule, ttl_cap).rdatas == item.rdatas,
        migrated(item, rule, ttl_cap).insert_time == item.insert_time,
        migrated(item, rule, ttl_cap).response_code == item.response_code,
        migrated(item, rule, ttl_cap).min_ttl <= item.min_ttl,
        ttl_cap is Some ==> migrated(item, rule, ttl_cap).min_ttl <= ttl_cap->0,
{
}

/// A cached answer holds for as many whole seconds as its time to live says
/// and no longer, and each of its records is given with the time that is left
/// and otherwise as it was.
pub proof fn law_answer_runs_down(item: CacheItemView, now: u128, secs: u32, rest: int)
    requires
        0 <= rest < 1_000_000_000,
        now == item.insert_time + secs * 1_000_000_000 + rest,
    ensures
        secs > item.min_ttl ==> cached_answer(item, now) is None,
        secs <= item.min_ttl ==> {
            &&& cached_answer(item, now) matches Some(answer)
            &&& answer.filter == item.filter
            &&& answer.response_code == item.response_code
            &&& answer.records.len() == item.rdatas.len()
            &&& forall|i: int|
                0 <= i < answer.records.len() ==> {
                    &&& (#[trigger] answer.records[i]).name == item.rdatas[i].name
                    &&& answer.records[i].data == item.rdatas[i].data
                    &&& answer.records[i].ttl == item.min_ttl - secs
                }
        },
{
    let passed = now - item.insert_time;
    assert(passed / 1_000_000_000 == secs) by (nonlinear_arith)
        requires
            passed == secs * 1_000_000_000 + rest,
            0 <= rest < 1_000_000_000,
    ;
    vstd::arithmetic::div_mod::lemma_small_mod(secs as nat, 0x1_0000_0000);
}

/// An answer holds as long as the record that holds shortest; one without
/// records as long as negative answers do. It is cached, as it came and under
/// the rule, unless that is no time at all.
pub proof fn law_answer_holds_as_its_shortest(
    records: Seq<RecordView>,
    code: ResponseCode,
    rule: ResolutionRule,
    negative_ttl: u32,
    now: u128,
    least: int,
)
    requires
        records.len() > 0 ==> 0 <= least < records.len() && forall|i: int|
            0 <= i < records.len() ==> records[least].ttl <= (#[trigger] records[i]).ttl,
    ensures
        ({
            let ttl = if records.len() > 0 {
                records[least].ttl
            } else {
                negative_ttl
            };
            let item = item_for(records, code, rule, negative_ttl, now);
            &&& ttl == 0 ==> item is None
            &&& ttl > 0 ==> {
                &&& item matches Some(i)
                &&& i.min_ttl == ttl
                &&& i.rdatas == records
                &&& i.response_code == code
                &&& i.insert_time == now
                &&& i.mark == rule.mark
                &&& i.filter == rule.filter
                &&& i.matched_rule_id == Some(rule.config_id)
                &&& i.matched_rule_order == Some(rule.order)
            }
        }),
{
    if records.len() > 0 {
        lemma_shortest(records, negative_ttl, least);
        let at = lemma_shortest_is_there(records, negative_ttl);
    }
}

proof fn lemma_shortest_is_there(records: Seq<RecordView>, without: u32) -> (i: int)
    requires
        records.len() > 0,
    ensures
        0 <= i < records.len(),
        records[i].ttl == shortest_ttl(records, without),
    decreases records.len(),
{
    if records.len() == 1 {
        0
    } else {
        let front = records.drop_last();
        let i = lemma_shortest_is_there(front, without);
        assert(front[i] == records[i]);
        if records.last().ttl < shortest_ttl(front, without) {
            records.len() - 1
        } else {
            i
        }
    }
}

/// The first rule that a name falls under decides, and there is none where it
/// falls under none.
pub proof fn law_first_rule_decides(rules: Seq<ResolutionRule>, i: int)
    requires
        0 <= i <= rules.len(),
        i < rules.len() ==> rules[i].matches,
        forall|k: int| 0 <= k < i ==> !(#[trigger] rules[k]).matches,
    ensures
        first_match(rules, 0) == if i < rules.len() {
            Some(rules[i])
        } else {
            None
        },
{
    lemma_first_match_from(rules, 0, i);
}

proof fn lemma_first_match_from(rules: Seq<ResolutionRule>, from: int, i: int)
    requires
        0 <= from <= i <= rules.len(),
        forall|k: int| from <= k < i ==> !(#[trigger] rules[k]).matches,
    ensures
        first_match(rules, from) == first_match(rules, i),
    decreases i - from,
{
    if from < i {
        assert(!rules[from].matches);
        lemma_first_match_from(rules, from + 1, i);
    }
}

/// A cached answer stays under its rule where that still stands at its place
/// and is for the name, whatever stands in front of it; else it goes to the
/// first rule that is for the name.
pub proof fn law_cached_answer_keeps_its_rule(
    rules: Seq<ResolutionRule>,
    item: CacheItemView,
    i: int,
)
    requires
        0 <= i < rules.len(),
        item.matched_rule_order == Some(rules[i].order),
        forall|k: int|
            0 <= k < rules.len() && k != i ==> (#[trigger] rules[k]).order != rules[i].order,
    ensures
        item.matched_rule_id == Some(rules[i].config_id) && rules[i].matches ==> cache_rule(
            rules,
            item,
        ) == Some(rules[i]),
        item.matched_rule_id != Some(rules[i].config_id) || !rules[i].matches ==> cache_rule(
            rules,
            item,
        ) == first_match(rules, 0),
{
    lemma_rule_of_order(rules, rules[i].order, 0, i);
}

/// A cached answer whose rule is gone goes to the first rule that is for the
/// name.
pub proof fn law_orphaned_answer_is_matched_anew(rules: Seq<ResolutionRule>, item: CacheItemView)
    requires
        item.matched_rule_order matches Some(order) ==> forall|k: int|
            0 <= k < rules.len() ==> (#[trigger] rules[k]).order != order,
    ensures
        cache_rule(rules, item) == first_match(rules, 0),
{
    if let Some(order) = item.matched_rule_order {
        lemma_rule_of_order(rules, order, 0, rules.len() as int);
    }
}

proof fn lemma_rule_of_order(rules: Seq<ResolutionRule>, order: u32, from: int, i: int)
    requires
        0 <= from <= i <= rules.len(),
        forall|k: int| from <= k < i ==> (#[trigger] rules[k]).order != order,
    ensures
        rule_of_order(rules, order, from) == rule_of_order(rules, order, i),
    decreases i - from,
{
    if from < i {
        assert(rules[from].order != order);
        lemma_rule_of_order(rules, order, from + 1, i);
    }
}

/// A cached answer that is taken over has the marks of its new rule, and holds
/// as long as before or, where that is shorter, as the cap.
pub proof fn law_migrated_answer(
    item: CacheItemView,
    rule: ResolutionRule,
    ttl_cap: Option<u32>,
)
    ensures
        ({
            let r = migrated(item, rule, ttl_cap);
            &&& r.mark == rule.mark
            &&& r.filter == rule.filter
            &&& r.matched_rule_id == Some(rule.config_id)
            &&& r.matched_rule_order == Some(rule.order)
            &&& ttl_cap is None ==> r.min_ttl == item.min_ttl
            &&& ttl_cap matches Some(cap) ==> (r.min_ttl == cap || r.min_ttl == item.min_ttl) && (
            cap >= item.min_ttl ==> r.min_ttl == item.min_ttl) && (cap <= item.min_ttl
                ==> r.min_ttl == cap)
        }),
{
}

/// Of several rules for one place the last one stands there.
pub proof fn law_last_rule_takes_the_place(rules: Seq<RuleView>, i: int)
    requires
        0 <= i < rules.len(),
        forall|k: int| i < k < rules.len() ==> (#[trigger] rules[k]).order != rules[i].order,
    ensures
        rule_at(rules, rules[i].order) == Some(rules[i]),
    decreases rules.len(),
{
    if i < rules.len() - 1 {
        let front = rules.drop_last();
        assert(front[i] == rules[i]);
        assert(rules[rules.len() - 1].order != rules[i].order);
        law_last_rule_takes_the_place(front, i);
    }
}

/// A place that no rule is for is empty.
pub proof fn law_place_without_rule(rules: Seq<RuleView>, order: u32)
    requires
        forall|i: int| 0 <= i < rules.len() ==> (#[trigger] rules[i]).order != order,
    ensures
        rule_at(rules, order) is None,
{
    lemma_rule_at_none(rules, order);
}

} // verus!

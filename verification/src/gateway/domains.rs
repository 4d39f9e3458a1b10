//! Matching host names with the domains of a rule.
use vstd::prelude::*;
use crate::text::{concat2, has_prefix, has_suffix, lower, same_text_ignoring_case, text_between,
    to_lower, chars_of};

verus! {

/// Whether a domain of a rule stands for all names below it.
pub open spec fn is_wildcard(domain: Seq<char>) -> bool {
    "*."@.is_prefix_of(domain)
}

/// Whether a name lies below a wildcard domain, letter case aside. The domain
/// itself does not.
pub open spec fn wildcard_matches(domain: Seq<char>, host: Seq<char>) -> bool {
    is_wildcard(domain) && ("."@ + lower(domain.skip(2))).is_suffix_of(lower(host))
}

/// Whether a name is a domain that is no wildcard, letter case aside.
pub open spec fn exact_matches(domain: Seq<char>, host: Seq<char>) -> bool {
    !is_wildcard(domain) && lower(domain) == lower(host)
}

pub fn match_wildcard(pattern: &str, host: &str) -> (r: bool)
    ensures
        r == wildcard_matches(pattern@, host@),
{
    if !has_prefix(pattern, "*.") {
        return false;
    }
    proof {
        reveal_strlit("*.");
    }
    let cs = chars_of(pattern);
    let n: usize = cs.len();
    let suffix = text_between(&cs, 2, n);
    assert(suffix@ =~= pattern@.skip(2));
    has_suffix(&to_lower(host), &concat2(".", &to_lower(&suffix)))
}

/// Whether a name is under one of the domains: under the wildcards among them,
/// or under the others.
pub open spec fn any_domain_matches(
    domains: Seq<String>,
    host: Seq<char>,
    wildcard_only: bool,
) -> bool {
    exists|i: int|
        0 <= i < domains.len() && if wildcard_only {
            wildcard_matches((#[trigger] domains[i])@, host)
        } else {
            exact_matches(domains[i]@, host)
        }
}

pub fn domain_matches(domains: &Vec<String>, host: &str, wildcard_only: bool) -> (r: bool)
    ensures
        r == any_domain_matches(domains@, host@, wildcard_only),
{
    let n: usize = domains.len();
    for i in 0..n
        invariant
            n == domains@.len(),
            forall|k: int|
                0 <= k < i ==> !(if wildcard_only {
                    wildcard_matches((#[trigger] domains@[k])@, host@)
                } else {
                    exact_matches(domains@[k]@, host@)
                }),
    {
        let matched: bool = if wildcard_only {
            match_wildcard(&domains[i], host)
        } else {
            !has_prefix(&domains[i], "*.") && same_text_ignoring_case(&domains[i], host)
        };
        if matched {
            return true;
        }
    }
    false
}

/// The letter case of a host name makes no difference.
pub proof fn law_host_case_ignored(domain: Seq<char>, host: Seq<char>, other: Seq<char>)
    requires
        lower(host) == lower(other),
    ensures
        wildcard_matches(domain, host) == wildcard_matches(domain, other),
        exact_matches(domain, host) == exact_matches(domain, other),
{
}

/// A wildcard does not stand for its own domain, but for each name with a
/// label in front of it.
pub proof fn law_wildcard_needs_a_label(base: Seq<char>, label: Seq<char>)
    ensures
        !wildcard_matches("*."@ + base, base),
        wildcard_matches("*."@ + base, label + "."@ + base),
{
    reveal_strlit("*.");
    reveal_strlit(".");
    let domain = "*."@ + base;
    assert(domain.subrange(0, 2) =~= "*."@);
    assert(domain.skip(2) =~= base);
    let name = label + "."@ + base;
    let dotted = "."@ + lower(base);
    assert(lower(name) =~= lower(label) + dotted);
    assert(lower(name).subrange(lower(name).len() - dotted.len(), lower(name).len() as int)
        =~= dotted);
}

/// A domain that is no wildcard stands for the names that differ from it in
/// letter case at most.
pub proof fn law_domain_stands_for_itself(domain: Seq<char>, host: Seq<char>)
    requires
        !(domain.len() >= 2 && domain[0] == '*' && domain[1] == '.'),
    ensures
        exact_matches(domain, host) <==> domain.len() == host.len() && forall|i: int|
            0 <= i < domain.len() ==> lower(domain)[i] == #[trigger] lower(host)[i],
        !wildcard_matches(domain, host),
{
    reveal_strlit("*.");
    if is_wildcard(domain) {
        assert(domain.subrange(0, 2)[0] == '*' && domain.subrange(0, 2)[1] == '.');
    }
    assert(lower(domain).len() == domain.len() && lower(host).len() == host.len());
    if domain.len() == host.len() && forall|i: int|
        0 <= i < domain.len() ==> lower(domain)[i] == #[trigger] lower(host)[i] {
        assert(lower(domain) =~= lower(host));
    }
}

/// A wildcard stands only for names that have, letter case aside, a dot and
/// its base behind a label; and no name is a wildcard's own.
pub proof fn law_wildcard_stands_below(base: Seq<char>, host: Seq<char>)
    requires
        wildcard_matches("*."@ + base, host),
    ensures
        host.len() > base.len(),
        host[host.len() - base.len() - 1] == '.',
        lower(host.skip(host.len() - base.len())) == lower(base),
        !exact_matches("*."@ + base, host),
{
    reveal_strlit("*.");
    reveal_strlit(".");
    let domain = "*."@ + base;
    assert(domain.skip(2) =~= base);
    let dotted = "."@ + lower(base);
    let at = host.len() - dotted.len();
    let tail = lower(host).subrange(at as int, host.len() as int);
    assert(tail == dotted);
    assert(tail[0] == '.');
    assert(lower(host)[at as int] == '.');
    assert(host[at as int] == '.');
    assert(lower(host.skip(host.len() - base.len())) =~= tail.skip(1));
    assert(dotted.skip(1) =~= lower(base));
    assert(domain.subrange(0, 2) =~= "*."@);
}

/// A name is under one of several domains where it is under any of them.
pub proof fn law_any_domain_will_do(
    front: Seq<String>,
    domain: String,
    back: Seq<String>,
    host: Seq<char>,
    wildcard_only: bool,
)
    ensures
        !any_domain_matches(Seq::empty(), host, wildcard_only),
        any_domain_matches(front + seq![domain] + back, host, wildcard_only) == (
        any_domain_matches(front, host, wildcard_only) || any_domain_matches(
            back,
            host,
            wildcard_only,
        ) || if wildcard_only {
            wildcard_matches(domain@, host)
        } else {
            exact_matches(domain@, host)
        }),
{
    let all = front + seq![domain] + back;
    assert(all[front.len() as int] == domain);
    if any_domain_matches(front, host, wildcard_only) {
        let i = choose|i: int|
            0 <= i < front.len() && if wildcard_only {
                wildcard_matches((#[trigger] front[i])@, host)
            } else {
                exact_matches(front[i]@, host)
            };
        assert(all[i] == front[i]);
    }
    if any_domain_matches(back, host, wildcard_only) {
        let i = choose|i: int|
            0 <= i < back.len() && if wildcard_only {
                wildcard_matches((#[trigger] back[i])@, host)
            } else {
                exact_matches(back[i]@, host)
            };
        assert(all[front.len() + 1 + i] == back[i]);
    }
    if any_domain_matches(all, host, wildcard_only) {
        let i = choose|i: int|
            0 <= i < all.len() && if wildcard_only {
                wildcard_matches((#[trigger] all[i])@, host)
            } else {
                exact_matches(all[i]@, host)
            };
        if i < front.len() {
            assert(front[i] == all[i]);
        } else if i > front.len() {
            assert(back[i - front.len() - 1] == all[i]);
        }
    }
}

} // verus!

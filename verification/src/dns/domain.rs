//! A queried name, prepared for looking at its labels.
use vstd::prelude::*;
use crate::dns::outside::{dns_name_text, parse_dns_name};
use crate::hostname::registry::{strip_root, without_root};
use crate::text::{
    concat2, lemma_split_nonempty, lower, opt_str, opt_text, same_text, split, split_on,
    strip_suffix, texts, to_lower, without_suffix,
};

verus! {

pub struct PreprocessedDomain {
    raw: String,
    name: String,
    labels: Vec<String>,
}

/// The labels of a name.
pub open spec fn labels_of(name: Seq<char>) -> Seq<Seq<char>> {
    split_on(name, '.')
}

/// The last label of a name.
pub open spec fn last_label(name: Seq<char>) -> Seq<char> {
    labels_of(name).last()
}

/// The label in front of `arpa`, where a name ends in it.
pub open spec fn arpa_second_label(name: Seq<char>) -> Option<Seq<char>> {
    let labels = labels_of(name);
    if labels.len() >= 2 && labels.last() == "arpa"@ {
        Some(labels[labels.len() - 2])
    } else {
        None
    }
}

/// What stands in front of a last label and its dot, where something does.
pub open spec fn host_in_front_of(name: Seq<char>, tld: Seq<char>) -> Option<Seq<char>> {
    match without_suffix(name, "."@ + tld) {
        Some(h) => if h.len() > 0 {
            Some(h)
        } else {
            None
        },
        None => None,
    }
}

impl PreprocessedDomain {
    #[verifier::type_invariant]
    closed spec fn labels_match(&self) -> bool {
        texts(self.labels@) == labels_of(self.name@) && self.labels@.len() >= 1
    }

    /// The name as it was asked for.
    pub closed spec fn raw_text(&self) -> Seq<char> {
        self.raw@
    }

    /// The name in lower case and without the dot that may end it.
    pub closed spec fn name_text(&self) -> Seq<char> {
        self.name@
    }

    pub fn new(domain: &str) -> (r: Self)
        ensures
            r.raw_text() == domain@,
            r.name_text() == lower(without_root(domain@)),
    {
        let name = to_lower(&strip_root(domain));
        let labels = split(&name, '.');
        PreprocessedDomain { raw: domain.to_owned(), name, labels }
    }

    pub fn raw(&self) -> (r: &str)
        ensures
            r@ == self.raw_text(),
    {
        &self.raw
    }

    /// The DNS name that was asked for, as text, where it is one.
    pub fn as_dns_name(&self) -> (r: Option<String>)
        ensures
            opt_text(r) == dns_name_text(self.raw_text()),
    {
        parse_dns_name(&self.raw)
    }

    pub fn name(&self) -> (r: &str)
        ensures
            r@ == self.name_text(),
    {
        &self.name
    }

    pub fn tld(&self) -> (r: &str)
        ensures
            r@ == last_label(self.name_text()),
    {
        proof {
            use_type_invariant(self);
            assert(texts(self.labels@).last() == self.labels@.last()@);
        }
        let n: usize = self.labels.len();
        self.labels[n - 1].as_str()
    }

    pub fn arpa_sld(&self) -> (r: Option<&str>)
        ensures
            opt_str(r) == arpa_second_label(self.name_text()),
    {
        proof {
            use_type_invariant(self);
            assert(texts(self.labels@).last() == self.labels@.last()@);
        }
        let n: usize = self.labels.len();
        if n >= 2 && same_text(&self.labels[n - 1], "arpa") {
            assert(texts(self.labels@)[n - 2] == self.labels@[n - 2]@);
            Some(self.labels[n - 2].as_str())
        } else {
            None
        }
    }

    pub fn arpa_prefix(&self) -> (r: Option<&str>)
        ensures
            opt_str(r) == without_suffix(self.name_text(), ".arpa"@),
    {
        strip_suffix(&self.name, ".arpa")
    }

    pub fn hostname_for_tld(&self, tld: &str) -> (r: Option<&str>)
        ensures
            opt_str(r) == host_in_front_of(self.name_text(), tld@),
    {
        let suffix = concat2(".", tld);
        match strip_suffix(&self.name, &suffix) {
            Some(h) => if h.is_empty() {
                None
            } else {
                Some(h)
            },
            None => None,
        }
    }
}

/// A dot at the end of a name makes no difference.
pub proof fn law_final_dot_ignored(domain: Seq<char>)
    requires
        domain.len() > 0 ==> domain.last() != '.',
    ensures
        without_root(domain.push('.')) == without_root(domain),
{
    assert(domain.push('.').drop_last() =~= domain);
}

/// A name is its host part, a dot and its last label.
pub proof fn law_host_and_tld(name: Seq<char>, tld: Seq<char>)
    requires
        host_in_front_of(name, tld) is Some,
    ensures
        name == host_in_front_of(name, tld)->0 + ("."@ + tld),
        host_in_front_of(name, tld)->0.len() > 0,
{
    let dotted = "."@ + tld;
    let host = host_in_front_of(name, tld)->0;
    assert(name =~= host + name.subrange(name.len() - dotted.len(), name.len() as int));
}

proof fn lemma_label_without_dot(name: Seq<char>, i: int)
    requires
        0 <= i < labels_of(name).len(),
    ensures
        !labels_of(name)[i].contains('.'),
    decreases name.len(),
{
    if name.len() > 0 {
        let front = name.drop_last();
        let before = labels_of(front);
        lemma_split_nonempty(front, '.');
        if name.last() == '.' {
            if i < before.len() {
                lemma_label_without_dot(front, i);
            }
        } else {
            lemma_label_without_dot(front, i);
            if i == before.len() - 1 {
                let label = before.last().push(name.last());
                assert forall|k: int| 0 <= k < label.len() implies label[k] != '.' by {
                    if k < before.last().len() {
                        assert(before.last()[k] == label[k]);
                        assert(before.last().contains(before.last()[k]));
                    }
                }
            }
        }
    }
}

/// No label holds a dot.
pub proof fn law_labels_hold_no_dot(name: Seq<char>, i: int)
    requires
        0 <= i < labels_of(name).len(),
    ensures
        !labels_of(name)[i].contains('.'),
{
    lemma_label_without_dot(name, i);
}

/// The last label is what stands behind the last dot, or the whole name where
/// there is none; the label in front of `arpa` is what stands behind the dot
/// before that.
pub proof fn law_last_labels(front: Seq<char>, label: Seq<char>, last: Seq<char>)
    requires
        !label.contains('.'),
        !last.contains('.'),
    ensures
        last_label(last) == last,
        last_label(front.push('.') + last) == last,
        arpa_second_label(last) is None,
        last == "arpa"@ ==> arpa_second_label(label.push('.') + last) == Some(label),
        last == "arpa"@ ==> arpa_second_label((front.push('.') + label).push('.') + last) == Some(
            label,
        ),
        last != "arpa"@ ==> arpa_second_label(front.push('.') + last) is None,
{
    crate::text::law_split_at_the_last(front, last, '.');
    crate::text::law_split_at_the_last(label, last, '.');
    crate::text::law_split_at_the_last(front, label, '.');
    crate::text::law_split_at_the_last(front.push('.') + label, last, '.');
}

/// The host in front of a last label is everything in front of its dot, where
/// that is anything; another last label has no host.
pub proof fn law_host_is_in_front(host: Seq<char>, tld: Seq<char>)
    ensures
        host.len() > 0 ==> host_in_front_of(host.push('.') + tld, tld) == Some(host),
        host_in_front_of(tld, tld) is None,
        host_in_front_of(seq!['.'] + tld, tld) is None,
{
    reveal_strlit(".");
    let dotted = "."@ + tld;
    let name = host.push('.') + tld;
    assert(name.subrange(name.len() - dotted.len(), name.len() as int) =~= dotted);
    assert(name.take(host.len() as int) =~= host);
}

/// The dot that may end a name is taken off once, and nothing else.
pub proof fn law_root_is_one_dot(domain: Seq<char>)
    ensures
        without_root(domain.push('.')) == domain,
        domain.len() == 0 || domain.last() != '.' ==> without_root(domain) == domain,
{
    assert(domain.push('.').drop_last() =~= domain);
}

} // verus!

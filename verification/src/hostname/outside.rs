//! What the registry takes from the crates `dashmap` and `idna`.
use dashmap::DashMap;
use vstd::prelude::*;
use crate::text::{lower, opt_text};

verus! {

/// The concurrent map of the crate `dashmap`.
#[verifier::external_type_specification]
#[verifier::external_body]
#[verifier::reject_recursive_types(K)]
#[verifier::reject_recursive_types(V)]
#[verifier::reject_recursive_types(S)]
pub struct ExDashMap<K, V, S>(DashMap<K, V, S>);

/// A map from names to an address and whether an enrolled device holds it.
pub type HostMap = DashMap<String, (u32, bool)>;

/// What a `DashMap` holds, name by name.
pub uninterp spec fn held_names(map: DashMap<String, (u32, bool)>) -> Map<Seq<char>, (u32, bool)>;

/// No names at all.
pub open spec fn no_names() -> Map<Seq<char>, (u32, bool)> {
    Map::empty()
}

/// `DashMap::new`: a map that holds nothing.
#[verifier::external_body]
pub(crate) fn new_host_map() -> (r: HostMap)
    ensures
        held_names(r) == no_names(),
{
    DashMap::new()
}

/// `DashMap::insert`: stores the value under the key, in place of what was
/// stored there, and leaves every other key alone.
#[verifier::external_body]
pub(crate) fn put_host(map: &mut HostMap, name: String, value: (u32, bool))
    ensures
        held_names(*final(map)) == held_names(*old(map)).insert(name@, value),
{
    map.insert(name, value);
}

/// `DashMap::remove`: takes the key out, where it is there, and leaves every
/// other key alone.
#[verifier::external_body]
pub(crate) fn remove_host(map: &mut HostMap, name: &str)
    ensures
        held_names(*final(map)) == held_names(*old(map)).remove(name@),
{
    map.remove(name);
}

/// `DashMap::get`: the value stored under the key, where there is one.
#[verifier::external_body]
pub(crate) fn get_host(map: &HostMap, name: &str) -> (r: Option<(u32, bool)>)
    ensures
        r == (if held_names(*map).contains_key(name@) {
            Some(held_names(*map)[name@])
        } else {
            None
        }),
{
    match map.get(name) {
        Some(entry) => Some(*entry),
        None => None,
    }
}

/// Whether a domain name is made of ASCII letters, digits, single hyphens and
/// dots alone.
pub open spec fn plain_domain(domain: Seq<char>) -> bool {
    &&& forall|i: int| 0 <= i < domain.len() ==> plain_char(#[trigger] domain[i])
    &&& forall|i: int|
        0 <= i < domain.len() - 1 ==> !(#[trigger] domain[i] == '-' && domain[i + 1] == '-')
}

/// Whether a character is an ASCII letter or digit, a hyphen or a dot.
pub open spec fn plain_char(c: char) -> bool {
    'a' <= c <= 'z' || 'A' <= c <= 'Z' || '0' <= c <= '9' || c == '-' || c == '.'
}

/// The ASCII form of a domain name by the rules of UTS 46, where it has one.
pub uninterp spec fn ascii_domain(domain: Seq<char>) -> Option<Seq<char>>;

/// `idna::domain_to_ascii`: the ASCII form of a domain name, or none where the
/// name breaks the rules. A name of ASCII letters, digits, dots and hyphens, no
/// two of which stand in a row, so that no part of it can be an encoded label,
/// is only brought into lower case. Which form another name has, is left to its
/// name.
#[verifier::external_body]
pub(crate) fn domain_to_ascii(domain: &str) -> (r: Option<String>)
    ensures
        opt_text(r) == ascii_domain(domain@),
        plain_domain(domain@) ==> opt_text(r) == Some(lower(domain@)),
{
    idna::domain_to_ascii(domain).ok()
}

/// The ASCII form of a domain name, where it has one: a plain name in lower
/// case, another one by the rules of UTS 46.
pub open spec fn ascii_form(domain: Seq<char>) -> Option<Seq<char>> {
    if plain_domain(domain) {
        Some(lower(domain))
    } else {
        ascii_domain(domain)
    }
}

/// The ASCII form of a domain name, where it has one.
pub fn to_ascii(domain: &str) -> (r: Option<String>)
    ensures
        opt_text(r) == ascii_form(domain@),
{
    domain_to_ascii(domain)
}

} // verus!

//! What the resolver takes from the crate `hickory-proto`.
use core::str::FromStr;
use hickory_proto::rr::Name;
use ipnet::IpNet;
use vstd::prelude::*;
use crate::text::opt_text;

verus! {

/// The text of the DNS name that a string stands for, where it is one.
pub uninterp spec fn dns_name_text(name: Seq<char>) -> Option<Seq<char>>;

/// `hickory_proto::rr::Name::from_str` and its `Display`: the DNS name that a
/// string stands for, as text, or none where the string is no name. Which
/// text that is, is left to its name.
#[verifier::external_body]
pub(crate) fn parse_dns_name(name: &str) -> (r: Option<String>)
    ensures
        opt_text(r) == dns_name_text(name@),
{
    Name::from_str(name).ok().map(|n| n.to_string())
}

/// The text of the DNS name that a string stands for by the strict rules for
/// international names, where it is one.
pub uninterp spec fn utf8_name_text(name: Seq<char>) -> Option<Seq<char>>;

/// `hickory_proto::rr::Name::from_utf8` and its `Display`: the DNS name that a
/// string stands for, as text, or none where the string is no name by the
/// strict rules. Which text that is, is left to its name.
#[verifier::external_body]
pub(crate) fn parse_utf8_name(name: &str) -> (r: Option<String>)
    ensures
        opt_text(r) == utf8_name_text(name@),
{
    Name::from_utf8(name).ok().map(|n| n.to_string())
}

/// The address that a reverse name stands for: whether it is an IPv4 address,
/// and its bits. A name for a whole network gives the network's first address.
pub uninterp spec fn reverse_address(name: Seq<char>) -> Option<(bool, u128)>;

/// `hickory_proto::rr::Name::parse_arpa_name` on the name that a string stands
/// for: the address or network that it names in reverse, or none where it
/// names none. Which address that is, is left to its name.
#[verifier::external_body]
pub(crate) fn parse_arpa_name(name: &str) -> (r: Option<(bool, u128)>)
    ensures
        r == reverse_address(name@),
{
    let net = Name::from_str(name).ok()?.parse_arpa_name().ok()?;
    match net {
        IpNet::V4(n) => Some((true, u32::from(n.addr()) as u128)),
        IpNet::V6(n) => Some((false, u128::from(n.addr()))),
    }
}

} // verus!

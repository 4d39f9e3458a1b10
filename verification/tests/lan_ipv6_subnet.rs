//! Arithmetic on IPv6 prefixes, and how addresses are written.
use landscape::lan_ipv6::subnet::{
    allocate_subnet, checked_allocate_subnet, checked_combine_ipv6_prefix_suffix,
    checked_extract_ipv6_suffix, combine_ipv6_prefix_suffix, extract_ipv6_suffix,
    normalize_ipv6_prefix,
};
use landscape::net::{Ipv4Addr, Ipv6Addr};

#[test]
fn allocate_subnet_supports_128_prefixes() {
    let addr = Ipv6Addr::new(0x2001, 0xdb8, 0, 0, 0, 0, 0, 1);
    let result =
        checked_allocate_subnet(addr, 128, 128, 0).expect("/128 allocation should succeed");

    assert_eq!(result.0, Ipv6Addr::new(0x2001, 0xdb8, 0, 0, 0, 0, 0, 1));
    assert_eq!(result.1, Ipv6Addr::new(0x2001, 0xdb8, 0, 0, 0, 0, 0, 1));
}

#[test]
fn extract_suffix_is_inverse_of_combine() {
    let prefix = Ipv6Addr::new(0x2001, 0xdb8, 0x1234, 0x5600, 0, 0, 0, 0);
    let prefix_len: u8 = 56;
    let addr = Ipv6Addr::new(0x2001, 0xdb8, 0x1234, 0x5601, 0xabcd, 0xefff, 0xfe12, 0x3456);

    let suffix = checked_extract_ipv6_suffix(addr, prefix_len).unwrap();
    let reconstructed = checked_combine_ipv6_prefix_suffix(prefix, prefix_len, suffix).unwrap();

    assert_eq!(reconstructed, addr);
}

#[test]
fn combine_and_extract_roundtrip() {
    let prefix = Ipv6Addr::new(0x2001, 0x4860, 0x4860, 0, 0, 0, 0, 0);
    let prefix_len: u8 = 48;
    let suffix = Ipv6Addr::new(0, 0, 0, 0, 0, 0, 0, 1);

    let combined = checked_combine_ipv6_prefix_suffix(prefix, prefix_len, suffix).unwrap();
    let extracted = checked_extract_ipv6_suffix(combined, prefix_len).unwrap();

    assert_eq!(extracted, suffix);
}

#[test]
fn subnets_are_numbered_from_the_parent() {
    let parent = Ipv6Addr::new(0x2001, 0xdb8, 0, 0x12ff, 9, 9, 9, 9);
    let (network, router) = allocate_subnet(parent, 56, 64, 0x34);
    assert_eq!(network, Ipv6Addr::new(0x2001, 0xdb8, 0, 0x1234, 0, 0, 0, 0));
    assert_eq!(router, Ipv6Addr::new(0x2001, 0xdb8, 0, 0x1234, 0, 0, 0, 1));
    assert!(checked_allocate_subnet(parent, 56, 64, 0xff).is_some());
    assert!(checked_allocate_subnet(parent, 56, 64, 0x100).is_none());
}

#[test]
fn impossible_subnets_are_refused() {
    let parent = Ipv6Addr::new(0xfd00, 0, 0, 0, 0, 0, 0, 0);
    assert!(checked_allocate_subnet(parent, 64, 56, 0).is_none());
    assert!(checked_allocate_subnet(parent, 129, 130, 0).is_none());
    assert!(checked_allocate_subnet(parent, 64, 129, 0).is_none());
    assert!(checked_allocate_subnet(parent, 64, 64, 1).is_none());
    assert!(checked_combine_ipv6_prefix_suffix(parent, 129, parent).is_none());
    assert!(checked_extract_ipv6_suffix(parent, 129).is_none());
}

#[test]
fn whole_address_space_has_subnets_too() {
    let any = Ipv6Addr::new(0xffff, 0, 0, 0, 0, 0, 0, 5);
    let (network, router) = allocate_subnet(any, 0, 0, 0);
    assert_eq!((network.bits, router.bits), (0, 1));
    let (last, same) = allocate_subnet(any, 0, 128, u128::MAX);
    assert_eq!((last.bits, same.bits), (u128::MAX, u128::MAX));
    assert_eq!(extract_ipv6_suffix(any, 0), any);
    assert_eq!(combine_ipv6_prefix_suffix(any, 128, Ipv6Addr { bits: 3 }), any);
}

#[test]
fn host_bits_are_cleared() {
    let addr = Ipv6Addr::new(0x2001, 0xdb8, 0, 0x12ff, 0, 0, 0, 1);
    assert_eq!(
        normalize_ipv6_prefix(addr, 56),
        Ipv6Addr::new(0x2001, 0xdb8, 0, 0x1200, 0, 0, 0, 0)
    );
    assert_eq!(normalize_ipv6_prefix(addr, 0).bits, 0);
    assert_eq!(normalize_ipv6_prefix(addr, 128), addr);
    assert_eq!(normalize_ipv6_prefix(addr, 200), addr);
}

#[test]
fn addresses_are_written_in_canonical_form() {
    assert_eq!(Ipv4Addr::new(192, 168, 5, 1).to_text(), "192.168.5.1");
    assert_eq!(Ipv4Addr::new(0, 0, 0, 0).to_text(), "0.0.0.0");
    assert_eq!(Ipv6Addr { bits: 0 }.to_text(), "::");
    assert_eq!(Ipv6Addr { bits: 1 }.to_text(), "::1");
    assert_eq!(Ipv6Addr::new(0xfd00, 0, 0, 0, 0, 0, 0, 0).to_text(), "fd00::");
    assert_eq!(Ipv6Addr::new(0x2001, 0xdb8, 0, 1, 0, 0, 0, 1).to_text(), "2001:db8:0:1::1");
    assert_eq!(Ipv6Addr::new(1, 0, 0, 2, 0, 0, 3, 4).to_text(), "1::2:0:0:3:4");
    assert_eq!(Ipv6Addr::new(1, 0, 2, 3, 4, 5, 6, 7).to_text(), "1:0:2:3:4:5:6:7");
    assert_eq!(
        Ipv6Addr::new(0, 0, 0, 0, 0, 0xffff, 0xc0a8, 0x501).to_text(),
        "::ffff:192.168.5.1"
    );
}

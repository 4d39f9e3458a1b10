//! Arithmetic on IPv6 prefixes: taking an address apart at a prefix length,
//! putting it together again, and numbering the subnets of a prefix.
use vstd::arithmetic::div_mod::{
    lemma_fundamental_div_mod, lemma_fundamental_div_mod_converse, lemma_mod_bound,
    lemma_small_mod,
};
use vstd::arithmetic::power2::{
    lemma2_to64, lemma_pow2_adds, lemma_pow2_pos, lemma_pow2_strictly_increases,
    lemma_pow2_unfold, pow2,
};
use vstd::prelude::*;
use crate::net::Ipv6Addr;

verus! {

/// How many addresses share one prefix of the given length.
pub open spec fn block_size(prefix_len: int) -> int {
    pow2((128 - prefix_len) as nat) as int
}

/// The part of an address that the prefix fixes.
pub open spec fn network_part(bits: int, prefix_len: int) -> int {
    bits - bits % block_size(prefix_len)
}

/// The part of an address behind the prefix.
pub open spec fn host_part(bits: int, prefix_len: int) -> int {
    bits % block_size(prefix_len)
}

/// Shifting one to the left by `k` gives the `k`-th power of two.
pub proof fn lemma_one_shifted(k: u32)
    requires
        k < 128,
    ensures
        (1u128 << k) == pow2(k as nat),
    decreases k,
{
    if k == 0 {
        lemma2_to64();
        assert(1u128 << 0u32 == 1u128) by (bit_vector);
    } else {
        let j = (k - 1) as u32;
        lemma_one_shifted(j);
        lemma_pow2_unfold(k as nat);
        assert(1u128 << k == 2 * (1u128 << j)) by (bit_vector)
            requires
                0 < k < 128,
                j == k - 1,
        ;
    }
}

/// Every address is below two to the 128.
pub proof fn lemma_address_range()
    ensures
        pow2(128) == u128::MAX + 1,
{
    lemma2_to64();
    lemma_pow2_adds(64, 64);
}

/// The address taken apart into what the prefix fixes and the rest.
fn split_at(bits: u128, prefix_len: u8) -> (r: (u128, u128))
    requires
        prefix_len <= 128,
    ensures
        r.0 == network_part(bits as int, prefix_len as int),
        r.1 == host_part(bits as int, prefix_len as int),
        r.0 + r.1 == bits,
{
    if prefix_len == 0 {
        proof {
            lemma_address_range();
            lemma_small_mod(bits as nat, pow2(128));
        }
        (0, bits)
    } else {
        let k: u32 = 128 - prefix_len as u32;
        proof {
            lemma_one_shifted(k);
            lemma_pow2_pos(k as nat);
        }
        let size: u128 = 1u128 << k;
        let host: u128 = bits % size;
        assert(host <= bits) by (nonlinear_arith)
            requires
                size > 0,
                host == bits % size,
        ;
        (bits - host, host)
    }
}

/// The address made of the network part of `prefix` and the host part of `suffix`.
pub open spec fn spec_combine(prefix: Ipv6Addr, prefix_len: u8, suffix: Ipv6Addr) -> Ipv6Addr {
    Ipv6Addr {
        bits: (network_part(prefix.bits as int, prefix_len as int) + host_part(
            suffix.bits as int,
            prefix_len as int,
        )) as u128,
    }
}

/// The host part of `ip` as an address.
pub open spec fn spec_extract(ip: Ipv6Addr, prefix_len: u8) -> Ipv6Addr {
    Ipv6Addr { bits: host_part(ip.bits as int, prefix_len as int) as u128 }
}

/// The network part of `ip` as an address.
pub open spec fn spec_network(ip: Ipv6Addr, prefix_len: u8) -> Ipv6Addr {
    Ipv6Addr { bits: network_part(ip.bits as int, prefix_len as int) as u128 }
}

/// A network part plus a host part is an address, with those two parts.
pub proof fn lemma_parts_add_up(prefix: u128, suffix: u128, prefix_len: u8)
    requires
        prefix_len <= 128,
    ensures
        0 <= network_part(prefix as int, prefix_len as int) <= prefix,
        0 <= host_part(prefix as int, prefix_len as int) <= prefix,
        network_part(prefix as int, prefix_len as int) + host_part(suffix as int, prefix_len as int)
            <= u128::MAX,
        host_part(
            network_part(prefix as int, prefix_len as int) + host_part(
                suffix as int,
                prefix_len as int,
            ),
            prefix_len as int,
        ) == host_part(suffix as int, prefix_len as int),
        network_part(
            network_part(prefix as int, prefix_len as int) + host_part(
                suffix as int,
                prefix_len as int,
            ),
            prefix_len as int,
        ) == network_part(prefix as int, prefix_len as int),
{
    let size = block_size(prefix_len as int);
    let e = (128 - prefix_len) as nat;
    lemma_pow2_pos(e);
    lemma_pow2_pos(prefix_len as nat);
    lemma_pow2_adds(prefix_len as nat, e);
    lemma_address_range();
    let count = pow2(prefix_len as nat) as int;
    assert(count * size == u128::MAX + 1);
    let q = prefix as int / size;
    let h = suffix as int % size;
    lemma_fundamental_div_mod(prefix as int, size);
    lemma_mod_bound(prefix as int, size);
    lemma_mod_bound(suffix as int, size);
    assert(network_part(prefix as int, prefix_len as int) == size * q);
    assert(q < count) by (nonlinear_arith)
        requires
            size * q <= prefix,
            prefix < count * size,
            size > 0,
    ;
    assert(size * q + size <= count * size) by (nonlinear_arith)
        requires
            q < count,
            size > 0,
    ;
    assert(q >= 0) by (nonlinear_arith)
        requires
            size * q + prefix as int % size == prefix,
            prefix as int % size < size,
            prefix >= 0,
            size > 0,
    ;
    assert(size * q >= 0) by (nonlinear_arith)
        requires
            q >= 0,
            size > 0,
    ;
    assert(size * q + h == q * size + h) by (nonlinear_arith);
    lemma_fundamental_div_mod_converse(size * q + h, size, q, h);
}

pub fn checked_combine_ipv6_prefix_suffix(
    prefix: Ipv6Addr,
    prefix_len: u8,
    suffix: Ipv6Addr,
) -> (r: Option<Ipv6Addr>)
    ensures
        r == if prefix_len <= 128 {
            Some(spec_combine(prefix, prefix_len, suffix))
        } else {
            None
        },
{
    if prefix_len > 128 {
        return None;
    }
    proof {
        lemma_parts_add_up(prefix.bits, suffix.bits, prefix_len);
    }
    let (network, _) = split_at(prefix.bits, prefix_len);
    let (_, host) = split_at(suffix.bits, prefix_len);
    Some(Ipv6Addr { bits: network + host })
}

pub fn combine_ipv6_prefix_suffix(prefix: Ipv6Addr, prefix_len: u8, suffix: Ipv6Addr) -> (r:
    Ipv6Addr)
    requires
        prefix_len <= 128,
    ensures
        r == spec_combine(prefix, prefix_len, suffix),
{
    match checked_combine_ipv6_prefix_suffix(prefix, prefix_len, suffix) {
        Some(ip) => ip,
        None => suffix,
    }
}

pub fn checked_extract_ipv6_suffix(ip: Ipv6Addr, prefix_len: u8) -> (r: Option<Ipv6Addr>)
    ensures
        r == if prefix_len <= 128 {
            Some(spec_extract(ip, prefix_len))
        } else {
            None
        },
{
    if prefix_len > 128 {
        return None;
    }
    let (_, host) = split_at(ip.bits, prefix_len);
    Some(Ipv6Addr { bits: host })
}

pub fn extract_ipv6_suffix(ip: Ipv6Addr, prefix_len: u8) -> (r: Ipv6Addr)
    requires
        prefix_len <= 128,
    ensures
        r == spec_extract(ip, prefix_len),
{
    match checked_extract_ipv6_suffix(ip, prefix_len) {
        Some(host) => host,
        None => ip,
    }
}

/// `addr` with every bit behind the prefix cleared; a prefix length above 128
/// counts as 128.
pub fn normalize_ipv6_prefix(addr: Ipv6Addr, prefix_len: u8) -> (r: Ipv6Addr)
    ensures
        r == if prefix_len <= 128 {
            spec_network(addr, prefix_len)
        } else {
            addr
        },
{
    if prefix_len > 128 {
        return addr;
    }
    let (network, _) = split_at(addr.bits, prefix_len);
    Ipv6Addr { bits: network }
}

/// Whether a prefix has a subnet of the given length with the given number.
pub open spec fn has_subnet(pd_prefix_len: u8, sub_prefix_len: u8, subnet_index: u128) -> bool {
    &&& pd_prefix_len <= sub_prefix_len <= 128
    &&& subnet_index < pow2((sub_prefix_len - pd_prefix_len) as nat)
}

/// The first address of subnet number `subnet_index`.
pub open spec fn subnet_network(
    pd_ip: Ipv6Addr,
    pd_prefix_len: u8,
    sub_prefix_len: u8,
    subnet_index: u128,
) -> int {
    network_part(pd_ip.bits as int, pd_prefix_len as int) + subnet_index * block_size(
        sub_prefix_len as int,
    )
}

/// A subnet and its router's address: the first address behind the subnet's
/// own, or the subnet itself where it has only one.
pub open spec fn spec_allocate(
    pd_ip: Ipv6Addr,
    pd_prefix_len: u8,
    sub_prefix_len: u8,
    subnet_index: u128,
) -> (Ipv6Addr, Ipv6Addr) {
    let network = subnet_network(pd_ip, pd_prefix_len, sub_prefix_len, subnet_index);
    let router = if sub_prefix_len == 128 {
        network
    } else {
        network + 1
    };
    (Ipv6Addr { bits: network as u128 }, Ipv6Addr { bits: router as u128 })
}

/// A subnet lies inside its parent prefix and starts at a multiple of its size.
pub proof fn lemma_subnet_in_parent(
    pd_ip: Ipv6Addr,
    pd_prefix_len: u8,
    sub_prefix_len: u8,
    subnet_index: u128,
)
    requires
        has_subnet(pd_prefix_len, sub_prefix_len, subnet_index),
    ensures
        ({
            let network = subnet_network(pd_ip, pd_prefix_len, sub_prefix_len, subnet_index);
            let parent = network_part(pd_ip.bits as int, pd_prefix_len as int);
            &&& parent <= network
            &&& network + block_size(sub_prefix_len as int) <= parent + block_size(
                pd_prefix_len as int,
            )
            &&& parent + block_size(pd_prefix_len as int) <= u128::MAX + 1
            &&& host_part(network, sub_prefix_len as int) == 0
            &&& network_part(network, pd_prefix_len as int) == parent
        }),
{
    let small = block_size(sub_prefix_len as int);
    let large = block_size(pd_prefix_len as int);
    let n = pow2((sub_prefix_len - pd_prefix_len) as nat) as int;
    let parent = network_part(pd_ip.bits as int, pd_prefix_len as int);
    let i = subnet_index as int;
    lemma_pow2_pos((128 - sub_prefix_len) as nat);
    lemma_pow2_pos((128 - pd_prefix_len) as nat);
    lemma_pow2_pos((sub_prefix_len - pd_prefix_len) as nat);
    lemma_pow2_pos(pd_prefix_len as nat);
    lemma_pow2_adds((sub_prefix_len - pd_prefix_len) as nat, (128 - sub_prefix_len) as nat);
    lemma_pow2_adds(pd_prefix_len as nat, (128 - pd_prefix_len) as nat);
    lemma_address_range();
    assert(large == n * small);
    lemma_fundamental_div_mod(pd_ip.bits as int, large);
    lemma_mod_bound(pd_ip.bits as int, large);
    let q = pd_ip.bits as int / large;
    assert(parent == large * q);
    assert(i * small >= 0 && i * small + small <= n * small) by (nonlinear_arith)
        requires
            0 <= i < n,
            small > 0,
    ;
    let count = pow2(pd_prefix_len as nat) as int;
    assert(large * q + large <= count * large) by (nonlinear_arith)
        requires
            large * q <= pd_ip.bits,
            pd_ip.bits < count * large,
            large > 0,
    ;
    assert(large * q + i * small == (n * q + i) * small + 0) by (nonlinear_arith)
        requires
            large == n * small,
    ;
    lemma_fundamental_div_mod_converse(large * q + i * small, small, n * q + i, 0);
    assert(large * q + i * small == q * large + i * small) by (nonlinear_arith);
    lemma_fundamental_div_mod_converse(large * q + i * small, large, q, i * small);
}

pub fn checked_allocate_subnet(
    pd_ip: Ipv6Addr,
    pd_prefix_len: u8,
    sub_prefix_len: u8,
    subnet_index: u128,
) -> (r: Option<(Ipv6Addr, Ipv6Addr)>)
    ensures
        r == if has_subnet(pd_prefix_len, sub_prefix_len, subnet_index) {
            Some(spec_allocate(pd_ip, pd_prefix_len, sub_prefix_len, subnet_index))
        } else {
            None
        },
{
    if pd_prefix_len > 128 || sub_prefix_len > 128 || sub_prefix_len < pd_prefix_len {
        return None;
    }
    let subnet_bits: u32 = (sub_prefix_len - pd_prefix_len) as u32;
    proof {
        lemma_address_range();
    }
    if subnet_bits < 128 {
        proof {
            lemma_one_shifted(subnet_bits);
        }
        if subnet_index >= 1u128 << subnet_bits {
            return None;
        }
    }
    proof {
        lemma_subnet_in_parent(pd_ip, pd_prefix_len, sub_prefix_len, subnet_index);
        lemma_pow2_pos((128 - sub_prefix_len) as nat);
    }
    let (parent, _) = split_at(pd_ip.bits, pd_prefix_len);
    if sub_prefix_len == 0 {
        proof {
            lemma2_to64();
            assert(subnet_index == 0);
        }
        return Some((Ipv6Addr { bits: parent }, Ipv6Addr { bits: parent + 1 }));
    }
    let k: u32 = 128 - sub_prefix_len as u32;
    proof {
        lemma_one_shifted(k);
        assert(subnet_index * block_size(sub_prefix_len as int) <= u128::MAX);
    }
    let size: u128 = 1u128 << k;
    let network: u128 = parent + subnet_index * size;
    if sub_prefix_len == 128 {
        Some((Ipv6Addr { bits: network }, Ipv6Addr { bits: network }))
    } else {
        proof {
            lemma2_to64();
            if k > 1 {
                lemma_pow2_strictly_increases(1, k as nat);
            }
            assert(size >= 2);
        }
        Some((Ipv6Addr { bits: network }, Ipv6Addr { bits: network + 1 }))
    }
}

pub fn allocate_subnet(
    pd_ip: Ipv6Addr,
    pd_prefix_len: u8,
    sub_prefix_len: u8,
    subnet_index: u128,
) -> (r: (Ipv6Addr, Ipv6Addr))
    requires
        has_subnet(pd_prefix_len, sub_prefix_len, subnet_index),
    ensures
        r == spec_allocate(pd_ip, pd_prefix_len, sub_prefix_len, subnet_index),
{
    match checked_allocate_subnet(pd_ip, pd_prefix_len, sub_prefix_len, subnet_index) {
        Some(pair) => pair,
        None => (pd_ip, pd_ip),
    }
}

/// Combining a prefix with a suffix and extracting the suffix gives back the
/// bits of the suffix that lie behind the prefix: the suffix itself, where it
/// has no other.
pub proof fn law_extract_after_combine(prefix: Ipv6Addr, prefix_len: u8, suffix: Ipv6Addr)
    requires
        prefix_len <= 128,
    ensures
        spec_extract(spec_combine(prefix, prefix_len, suffix), prefix_len) == spec_extract(
            suffix,
            prefix_len,
        ),
        suffix.bits < block_size(prefix_len as int) ==> spec_extract(
            spec_combine(prefix, prefix_len, suffix),
            prefix_len,
        ) == suffix,
{
    lemma_parts_add_up(prefix.bits, suffix.bits, prefix_len);
    lemma_parts_add_up(suffix.bits, suffix.bits, prefix_len);
    if suffix.bits < block_size(prefix_len as int) {
        lemma_small_mod(suffix.bits as nat, block_size(prefix_len as int) as nat);
    }
}

/// An address whose prefix is that of `prefix` is rebuilt from `prefix` and
/// the suffix extracted from it.
pub proof fn law_combine_after_extract(prefix: Ipv6Addr, prefix_len: u8, addr: Ipv6Addr)
    requires
        prefix_len <= 128,
        spec_network(addr, prefix_len) == spec_network(prefix, prefix_len),
    ensures
        spec_combine(prefix, prefix_len, spec_extract(addr, prefix_len)) == addr,
{
    lemma_parts_add_up(prefix.bits, addr.bits, prefix_len);
    lemma_parts_add_up(addr.bits, addr.bits, prefix_len);
    let host = spec_extract(addr, prefix_len).bits;
    lemma_pow2_pos((128 - prefix_len) as nat);
    lemma_mod_bound(addr.bits as int, block_size(prefix_len as int));
    lemma_small_mod(host as nat, block_size(prefix_len as int) as nat);
}

/// The combined address keeps the prefix.
pub proof fn law_combine_keeps_prefix(prefix: Ipv6Addr, prefix_len: u8, suffix: Ipv6Addr)
    requires
        prefix_len <= 128,
    ensures
        spec_network(spec_combine(prefix, prefix_len, suffix), prefix_len) == spec_network(
            prefix,
            prefix_len,
        ),
{
    lemma_parts_add_up(prefix.bits, suffix.bits, prefix_len);
    lemma_parts_add_up(suffix.bits, suffix.bits, prefix_len);
}

/// Clearing the bits behind a prefix twice is the same as once.
pub proof fn law_normalize_idempotent(addr: Ipv6Addr, prefix_len: u8)
    requires
        prefix_len <= 128,
    ensures
        spec_network(spec_network(addr, prefix_len), prefix_len) == spec_network(addr, prefix_len),
{
    lemma_parts_add_up(addr.bits, 0, prefix_len);
    lemma_pow2_pos((128 - prefix_len) as nat);
    lemma_small_mod(0, block_size(prefix_len as int) as nat);
}

/// A subnet and its router both carry the parent's prefix, and the router
/// carries the subnet's.
pub proof fn law_allocated_inside_parent(
    pd_ip: Ipv6Addr,
    pd_prefix_len: u8,
    sub_prefix_len: u8,
    subnet_index: u128,
)
    requires
        has_subnet(pd_prefix_len, sub_prefix_len, subnet_index),
    ensures
        ({
            let (network, router) = spec_allocate(
                pd_ip,
                pd_prefix_len,
                sub_prefix_len,
                subnet_index,
            );
            &&& spec_network(network, pd_prefix_len) == spec_network(pd_ip, pd_prefix_len)
            &&& spec_network(network, sub_prefix_len) == network
            &&& spec_network(router, sub_prefix_len) == network
            &&& spec_network(router, pd_prefix_len) == spec_network(pd_ip, pd_prefix_len)
        }),
{
    lemma_subnet_in_parent(pd_ip, pd_prefix_len, sub_prefix_len, subnet_index);
    let first = subnet_network(pd_ip, pd_prefix_len, sub_prefix_len, subnet_index);
    let small = block_size(sub_prefix_len as int);
    let large = block_size(pd_prefix_len as int);
    let parent = network_part(pd_ip.bits as int, pd_prefix_len as int);
    lemma_pow2_pos((128 - sub_prefix_len) as nat);
    lemma_pow2_pos((128 - pd_prefix_len) as nat);
    lemma_parts_add_up(pd_ip.bits, pd_ip.bits, pd_prefix_len);
    if sub_prefix_len < 128 {
        lemma2_to64();
        if sub_prefix_len < 127 {
            lemma_pow2_strictly_increases(1, (128 - sub_prefix_len) as nat);
        }
        lemma_fundamental_div_mod(first, small);
        assert(first + 1 == (first / small) * small + 1) by (nonlinear_arith)
            requires
                first == small * (first / small),
        ;
        lemma_fundamental_div_mod_converse(first + 1, small, first / small, 1);
        lemma_fundamental_div_mod(parent, large);
        lemma_fundamental_div_mod(pd_ip.bits as int, large);
        let q = pd_ip.bits as int / large;
        assert(first + 1 == q * large + (first + 1 - parent)) by (nonlinear_arith)
            requires
                parent == large * q,
        ;
        lemma_fundamental_div_mod_converse(first + 1, large, q, first + 1 - parent);
    }
}

/// Subnets with different numbers do not meet.
pub proof fn law_subnets_disjoint(
    pd_ip: Ipv6Addr,
    pd_prefix_len: u8,
    sub_prefix_len: u8,
    i: u128,
    j: u128,
)
    requires
        has_subnet(pd_prefix_len, sub_prefix_len, i),
        has_subnet(pd_prefix_len, sub_prefix_len, j),
        i < j,
    ensures
        subnet_network(pd_ip, pd_prefix_len, sub_prefix_len, i) + block_size(sub_prefix_len as int)
            <= subnet_network(pd_ip, pd_prefix_len, sub_prefix_len, j),
{
    let small = block_size(sub_prefix_len as int);
    lemma_pow2_pos((128 - sub_prefix_len) as nat);
    assert(i * small + small <= j * small) by (nonlinear_arith)
        requires
            i < j,
            small > 0,
    ;
}

/// The network of an address is the last multiple of the size of a block of
/// that length that is not behind the address; what is extracted is how far
/// the address lies behind it; and combining puts the one in front of the
/// other.
pub proof fn law_network_and_host(addr: Ipv6Addr, other: Ipv6Addr, prefix_len: u8)
    requires
        prefix_len <= 128,
    ensures
        ({
            let size = pow2((128 - prefix_len) as nat) as int;
            let network = spec_network(addr, prefix_len).bits as int;
            let host = spec_extract(addr, prefix_len).bits as int;
            &&& network % size == 0
            &&& network <= addr.bits < network + size
            &&& network + host == addr.bits
            &&& spec_combine(addr, prefix_len, other).bits == network + spec_extract(
                other,
                prefix_len,
            ).bits
        }),
{
    let size = block_size(prefix_len as int);
    let bits = addr.bits as int;
    lemma_pow2_pos((128 - prefix_len) as nat);
    lemma_mod_bound(bits, size);
    lemma_parts_add_up(addr.bits, other.bits, prefix_len);
    lemma_parts_add_up(addr.bits, addr.bits, prefix_len);
    lemma_parts_add_up(other.bits, other.bits, prefix_len);
    vstd::arithmetic::div_mod::lemma_fundamental_div_mod(bits, size);
    vstd::arithmetic::div_mod::lemma_mod_multiples_basic(bits / size, size);
    assert(bits - bits % size == (bits / size) * size) by (nonlinear_arith)
        requires
            bits == size * (bits / size) + bits % size,
    ;
}

/// A parent has as many subnets of a length as fit, counted from zero; the
/// subnet of a number starts that many blocks behind the parent, and its
/// router has the address next to it unless it is the only one.
pub proof fn law_subnet_of_a_number(
    pd_ip: Ipv6Addr,
    pd_prefix_len: u8,
    sub_prefix_len: u8,
    subnet_index: u128,
)
    requires
        has_subnet(pd_prefix_len, sub_prefix_len, subnet_index),
    ensures
        pd_prefix_len <= sub_prefix_len <= 128,
        subnet_index < pow2((sub_prefix_len - pd_prefix_len) as nat),
        ({
            let (network, router) = spec_allocate(
                pd_ip,
                pd_prefix_len,
                sub_prefix_len,
                subnet_index,
            );
            &&& network.bits == spec_network(pd_ip, pd_prefix_len).bits + subnet_index * pow2(
                (128 - sub_prefix_len) as nat,
            )
            &&& sub_prefix_len == 128 ==> router == network
            &&& sub_prefix_len < 128 ==> router.bits == network.bits + 1
        }),
{
    lemma_subnet_in_parent(pd_ip, pd_prefix_len, sub_prefix_len, subnet_index);
    lemma_parts_add_up(pd_ip.bits, 0, pd_prefix_len);
    lemma_pow2_pos((128 - sub_prefix_len) as nat);
    if sub_prefix_len < 128 {
        lemma2_to64();
        if sub_prefix_len < 127 {
            lemma_pow2_strictly_increases(1, (128 - sub_prefix_len) as nat);
        }
    }
}

/// A number has a subnet exactly where there is room for it.
pub proof fn law_room_for_subnets(pd_prefix_len: u8, sub_prefix_len: u8, subnet_index: u128)
    ensures
        has_subnet(pd_prefix_len, sub_prefix_len, subnet_index) <==> pd_prefix_len <= sub_prefix_len
            && sub_prefix_len <= 128 && subnet_index < pow2(
            (sub_prefix_len - pd_prefix_len) as nat,
        ),
{
}

} // verus!

//! Router advertisements: the flags byte, and the service configuration that
//! predates prefix groups.
use vstd::prelude::*;
use crate::error::{invalid, verdict_of, ServiceConfigError, Verdict};
use crate::lan_ipv6::dhcpv6_config::DHCPv6ServerConfig;
use crate::net::Ipv6Addr;
use crate::text::{decimal, decimal_text, same_text};

verus! {

/// The flags byte of a router advertisement, taken apart.
#[derive(Debug, Clone, Copy, PartialEq, Eq, Structural)]
pub struct RouterFlags {
    pub managed_address_config: bool,
    pub other_config: bool,
    pub home_agent: bool,
    pub prf: u8,
    pub nd_proxy: bool,
    pub reserved: u8,
}

/// The flags that a byte carries.
pub open spec fn flags_of_byte(byte: u8) -> RouterFlags {
    RouterFlags {
        managed_address_config: (byte & 0b1000_0000) != 0,
        other_config: (byte & 0b0100_0000) != 0,
        home_agent: (byte & 0b0010_0000) != 0,
        prf: (byte & 0b0001_1000) >> 3,
        nd_proxy: (byte & 0b0000_0100) != 0,
        reserved: byte & 0b0000_0011,
    }
}

/// One flag at its place in the byte.
pub open spec fn flag_bit(set: bool, place: u8) -> u8 {
    if set {
        place
    } else {
        0
    }
}

/// The byte that carries the flags.
pub open spec fn byte_of_flags(f: RouterFlags) -> u8 {
    flag_bit(f.managed_address_config, 0b1000_0000) | flag_bit(f.other_config, 0b0100_0000)
        | flag_bit(f.home_agent, 0b0010_0000) | (f.prf << 3) | flag_bit(f.nd_proxy, 0b0000_0100)
        | f.reserved
}

impl vstd::std_specs::convert::FromSpecImpl<u8> for RouterFlags {
    open spec fn obeys_from_spec() -> bool {
        true
    }

    open spec fn from_spec(byte: u8) -> Self {
        flags_of_byte(byte)
    }
}

impl From<u8> for RouterFlags {
    fn from(byte: u8) -> (r: Self) {
        RouterFlags {
            managed_address_config: (byte & 0b1000_0000) != 0,
            other_config: (byte & 0b0100_0000) != 0,
            home_agent: (byte & 0b0010_0000) != 0,
            prf: (byte & 0b0001_1000) >> 3,
            nd_proxy: (byte & 0b0000_0100) != 0,
            reserved: byte & 0b0000_0011,
        }
    }
}

fn flag_bit_of(set: bool, place: u8) -> (r: u8)
    ensures
        r == flag_bit(set, place),
{
    if set {
        place
    } else {
        0
    }
}

impl vstd::std_specs::convert::FromSpecImpl<RouterFlags> for u8 {
    open spec fn obeys_from_spec() -> bool {
        true
    }

    open spec fn from_spec(f: RouterFlags) -> Self {
        byte_of_flags(f)
    }
}

impl From<RouterFlags> for u8 {
    fn from(f: RouterFlags) -> (r: Self) {
        flag_bit_of(f.managed_address_config, 0b1000_0000) | flag_bit_of(
            f.other_config,
            0b0100_0000,
        ) | flag_bit_of(f.home_agent, 0b0010_0000) | (f.prf << 3) | flag_bit_of(
            f.nd_proxy,
            0b0000_0100,
        ) | f.reserved
    }
}

/// Managed addresses and other configuration, and nothing else.
pub fn ra_flag_default() -> (r: RouterFlags)
    ensures
        r == flags_of_byte(0xc0),
        r.managed_address_config,
        r.other_config,
        !r.home_agent,
        r.prf == 0,
        !r.nd_proxy,
        r.reserved == 0,
{
    proof {
        assert((0xc0u8 & 0b1000_0000) != 0 && (0xc0u8 & 0b0100_0000) != 0 && (0xc0u8 & 0b0010_0000)
            == 0 && (0xc0u8 & 0b0001_1000) >> 3 == 0 && (0xc0u8 & 0b0000_0100) == 0 && (0xc0u8
            & 0b0000_0011) == 0) by (bit_vector);
    }
    RouterFlags::from(0xc0)
}

/// A byte taken apart and put together again is the same byte.
pub proof fn law_flags_byte_roundtrip(byte: u8)
    ensures
        byte_of_flags(flags_of_byte(byte)) == byte,
{
    let m: u8 = flag_bit((byte & 0b1000_0000) != 0, 0b1000_0000);
    let o: u8 = flag_bit((byte & 0b0100_0000) != 0, 0b0100_0000);
    let h: u8 = flag_bit((byte & 0b0010_0000) != 0, 0b0010_0000);
    let p: u8 = (byte & 0b0001_1000) >> 3;
    let n: u8 = flag_bit((byte & 0b0000_0100) != 0, 0b0000_0100);
    let r: u8 = byte & 0b0000_0011;
    assert(m | o | h | (p << 3) | n | r == byte) by (bit_vector)
        requires
            m == (if (byte & 0b1000_0000) != 0 { 0b1000_0000u8 } else { 0u8 }),
            o == (if (byte & 0b0100_0000) != 0 { 0b0100_0000u8 } else { 0u8 }),
            h == (if (byte & 0b0010_0000) != 0 { 0b0010_0000u8 } else { 0u8 }),
            p == (byte & 0b0001_1000) >> 3,
            n == (if (byte & 0b0000_0100) != 0 { 0b0000_0100u8 } else { 0u8 }),
            r == byte & 0b0000_0011,
    ;
}

/// Flags whose preference and reserved parts have two bits each come back
/// unchanged from the byte.
pub proof fn law_byte_flags_roundtrip(f: RouterFlags)
    requires
        f.prf < 4,
        f.reserved < 4,
    ensures
        flags_of_byte(byte_of_flags(f)) == f,
{
    let m: u8 = flag_bit(f.managed_address_config, 0b1000_0000);
    let o: u8 = flag_bit(f.other_config, 0b0100_0000);
    let h: u8 = flag_bit(f.home_agent, 0b0010_0000);
    let p: u8 = f.prf;
    let n: u8 = flag_bit(f.nd_proxy, 0b0000_0100);
    let r: u8 = f.reserved;
    let b: u8 = m | o | h | (p << 3) | n | r;
    assert((b & 0b1000_0000 == m) && (b & 0b0100_0000 == o) && (b & 0b0010_0000 == h) && ((b
        & 0b0001_1000) >> 3 == p) && (b & 0b0000_0100 == n) && (b & 0b0000_0011 == r))
        by (bit_vector)
        requires
            m == 0 || m == 0b1000_0000,
            o == 0 || o == 0b0100_0000,
            h == 0 || h == 0b0010_0000,
            p < 4,
            n == 0 || n == 0b0000_0100,
            r < 4,
            b == m | o | h | (p << 3) | n | r,
    ;
}

#[derive(Debug, Clone, Copy)]
pub struct IPv6RaStaticConfig {
    pub base_prefix: Ipv6Addr,
    pub sub_prefix_len: u8,
    pub sub_index: u32,
    pub ra_preferred_lifetime: u32,
    pub ra_valid_lifetime: u32,
}

#[derive(Debug, Clone)]
pub struct IPv6RaPdConfig {
    pub depend_iface: String,
    pub prefix_len: u8,
    pub subnet_index: u32,
    pub ra_preferred_lifetime: u32,
    pub ra_valid_lifetime: u32,
}

/// Where an advertised prefix comes from.
#[derive(Debug, Clone)]
pub enum IPV6RaConfigSource {
    Static(IPv6RaStaticConfig),
    Pd(IPv6RaPdConfig),
}

#[derive(Debug, Clone)]
pub struct IPV6RAConfig {
    pub ad_interval: u32,
    pub ra_flag: RouterFlags,
    pub source: Vec<IPV6RaConfigSource>,
    pub dhcpv6: Option<DHCPv6ServerConfig>,
}

#[derive(Debug, Clone)]
pub struct IPV6RAServiceConfig {
    pub iface_name: String,
    pub enable: bool,
    pub config: IPV6RAConfig,
}

impl IPV6RaConfigSource {
    pub open spec fn spec_index(self) -> u32 {
        match self {
            IPV6RaConfigSource::Static(cfg) => cfg.sub_index,
            IPV6RaConfigSource::Pd(cfg) => cfg.subnet_index,
        }
    }

    /// Whether both take their prefix from the same place.
    pub open spec fn same_origin(self, other: Self) -> bool {
        match (self, other) {
            (IPV6RaConfigSource::Static(a), IPV6RaConfigSource::Static(b)) => a.base_prefix
                == b.base_prefix,
            (IPV6RaConfigSource::Pd(a), IPV6RaConfigSource::Pd(b)) => a.depend_iface@
                == b.depend_iface@,
            _ => false,
        }
    }

    /// What is reported where the origin was named before.
    pub open spec fn duplicate_origin_text(self) -> Seq<char> {
        match self {
            IPV6RaConfigSource::Static(cfg) => "Duplicate base_prefix found: "@
                + cfg.base_prefix.text(),
            IPV6RaConfigSource::Pd(cfg) => "Duplicate depend_iface found: "@ + cfg.depend_iface@,
        }
    }

    fn index(&self) -> (r: u32)
        ensures
            r == self.spec_index(),
    {
        match self {
            IPV6RaConfigSource::Static(cfg) => cfg.sub_index,
            IPV6RaConfigSource::Pd(cfg) => cfg.subnet_index,
        }
    }

    fn has_origin_of(&self, other: &Self) -> (r: bool)
        ensures
            r == self.same_origin(*other),
    {
        match (self, other) {
            (IPV6RaConfigSource::Static(a), IPV6RaConfigSource::Static(b)) => a.base_prefix
                == b.base_prefix,
            (IPV6RaConfigSource::Pd(a), IPV6RaConfigSource::Pd(b)) => same_text(
                &a.depend_iface,
                &b.depend_iface,
            ),
            _ => false,
        }
    }
}

/// The first thing wrong among the sources from number `i` on: an origin or
/// an index that an earlier source has.
pub open spec fn ra_sources_verdict(s: Seq<IPV6RaConfigSource>, i: int) -> Verdict
    decreases s.len() - i,
{
    if i < 0 || i >= s.len() {
        Verdict::Clean
    } else if exists|j: int| 0 <= j < i && s[i].same_origin(#[trigger] s[j]) {
        Verdict::Fault(s[i].duplicate_origin_text())
    } else if exists|j: int| 0 <= j < i && s[i].spec_index() == (#[trigger] s[j]).spec_index() {
        Verdict::Fault(
            "Duplicate sub_index/subnet_index found: "@ + decimal(s[i].spec_index() as nat),
        )
    } else {
        ra_sources_verdict(s, i + 1)
    }
}

impl IPV6RAConfig {
    pub open spec fn verdict(self) -> Verdict {
        ra_sources_verdict(self.source@, 0).or_else(
            match self.dhcpv6 {
                Some(dhcpv6) => dhcpv6.verdict(),
                None => Verdict::Clean,
            },
        )
    }

    pub fn validate(&self) -> (r: Result<(), ServiceConfigError>)
        ensures
            verdict_of(r) == self.verdict(),
    {
        let n: usize = self.source.len();
        for i in 0..n
            invariant
                n == self.source@.len(),
                ra_sources_verdict(self.source@, 0) == ra_sources_verdict(self.source@, i as int),
        {
            let src = &self.source[i];
            let mut same_origin: bool = false;
            let mut same_index: bool = false;
            for j in 0..i
                invariant
                    i < n,
                    n == self.source@.len(),
                    *src == self.source@[i as int],
                    same_origin == exists|k: int|
                        0 <= k < j && src.same_origin(#[trigger] self.source@[k]),
                    same_index == exists|k: int|
                        0 <= k < j && src.spec_index() == (
                        #[trigger] self.source@[k]).spec_index(),
            {
                let other = &self.source[j];
                if src.has_origin_of(other) {
                    same_origin = true;
                }
                if src.index() == other.index() {
                    same_index = true;
                }
            }
            if same_origin {
                return match src {
                    IPV6RaConfigSource::Static(cfg) => invalid(
                        "Duplicate base_prefix found: ".to_owned().concat(
                            &cfg.base_prefix.to_text(),
                        ),
                    ),
                    IPV6RaConfigSource::Pd(cfg) => invalid(
                        "Duplicate depend_iface found: ".to_owned().concat(&cfg.depend_iface),
                    ),
                };
            }
            if same_index {
                return invalid(
                    "Duplicate sub_index/subnet_index found: ".to_owned().concat(
                        &decimal_text(src.index() as u128),
                    ),
                );
            }
        }
        match &self.dhcpv6 {
            Some(dhcpv6) => dhcpv6.validate(),
            None => Ok(()),
        }
    }

    pub fn new(depend_iface: String) -> (r: Self)
        ensures
            r.ad_interval == 300,
            r.ra_flag == flags_of_byte(0xc0),
            r.dhcpv6 is None,
            r.source@ == seq![
                IPV6RaConfigSource::Pd(
                    IPv6RaPdConfig {
                        depend_iface,
                        ra_preferred_lifetime: 300,
                        ra_valid_lifetime: 300,
                        prefix_len: 64,
                        subnet_index: 1,
                    },
                ),
            ],
    {
        let mut source: Vec<IPV6RaConfigSource> = Vec::new();
        source.push(
            IPV6RaConfigSource::Pd(
                IPv6RaPdConfig {
                    depend_iface,
                    ra_preferred_lifetime: 300,
                    ra_valid_lifetime: 300,
                    prefix_len: 64,
                    subnet_index: 1,
                },
            ),
        );
        IPV6RAConfig { source, ra_flag: ra_flag_default(), ad_interval: 300, dhcpv6: None }
    }
}

/// The sources are accepted exactly when no two have the same origin and no
/// two have the same index.
pub proof fn law_accepted_ra_sources(s: Seq<IPV6RaConfigSource>)
    ensures
        ra_sources_verdict(s, 0) is Clean <==> forall|i: int, j: int|
            0 <= j < i < s.len() ==> !(#[trigger] s[i]).same_origin(#[trigger] s[j])
                && s[i].spec_index() != s[j].spec_index(),
{
    lemma_ra_sources_from(s, 0);
}

proof fn lemma_ra_sources_from(s: Seq<IPV6RaConfigSource>, from: int)
    requires
        0 <= from <= s.len(),
    ensures
        ra_sources_verdict(s, from) is Clean <==> forall|i: int, j: int|
            from <= i < s.len() && 0 <= j < i ==> !(#[trigger] s[i]).same_origin(#[trigger] s[j])
                && s[i].spec_index() != s[j].spec_index(),
    decreases s.len() - from,
{
    if from < s.len() {
        lemma_ra_sources_from(s, from + 1);
    }
}

/// Each flag has its place in the byte: managed addresses the highest, then
/// other configuration and home agent, two bits of preference, the proxy, and
/// two bits that are reserved.
pub proof fn law_places_of_flags(byte: u8)
    ensures
        ({
            let f = flags_of_byte(byte);
            &&& f.managed_address_config <==> byte / 128 == 1
            &&& f.other_config <==> (byte / 64) % 2 == 1
            &&& f.home_agent <==> (byte / 32) % 2 == 1
            &&& f.prf == (byte / 8) % 4
            &&& f.nd_proxy <==> (byte / 4) % 2 == 1
            &&& f.reserved == byte % 4
        }),
{
    assert(((byte & 0b1000_0000) != 0) == (byte / 128 == 1)) by (bit_vector);
    assert(((byte & 0b0100_0000) != 0) == ((byte / 64) % 2 == 1)) by (bit_vector);
    assert(((byte & 0b0010_0000) != 0) == ((byte / 32) % 2 == 1)) by (bit_vector);
    assert((byte & 0b0001_1000) >> 3 == (byte / 8) % 4) by (bit_vector);
    assert(((byte & 0b0000_0100) != 0) == ((byte / 4) % 2 == 1)) by (bit_vector);
    assert(byte & 0b0000_0011 == byte % 4) by (bit_vector);
}

/// Two sources have one origin where both are static with the same prefix, or
/// both delegated to the same interface.
pub proof fn law_same_origin(a: IPV6RaConfigSource, b: IPV6RaConfigSource)
    ensures
        a.same_origin(b) == b.same_origin(a),
        (a is Static) != (b is Static) ==> !a.same_origin(b),
        a matches IPV6RaConfigSource::Static(x) ==> (b matches IPV6RaConfigSource::Static(y) ==> (
        a.same_origin(b) <==> x.base_prefix == y.base_prefix)),
        a matches IPV6RaConfigSource::Pd(x) ==> (b matches IPV6RaConfigSource::Pd(y) ==> (
        a.same_origin(b) <==> x.depend_iface@ == y.depend_iface@)),
        a matches IPV6RaConfigSource::Static(x) ==> a.spec_index() == x.sub_index,
        a matches IPV6RaConfigSource::Pd(x) ==> a.spec_index() == x.subnet_index,
{
}

} // verus!

//! Prefix sources: the older way of saying which prefixes a LAN interface
//! serves, and how such a configuration becomes one of prefix groups.
use vstd::arithmetic::power2::pow2;
use vstd::prelude::*;
use crate::error::{invalid, invalid_because, verdict_of, ServiceConfigError, Verdict};
use crate::lan_ipv6::blocks::{blocks_fit, blocks_meet, blocks_overlap};
use crate::lan_ipv6::config::{
    running_dhcpv6_verdict, slaac_flags_verdict, validate_running_dhcpv6, validate_slaac_flags,
    IPv6ServiceMode, LanIPv6ConfigV2, LanIPv6ServiceConfigV2, SourceServiceKind,
};
use crate::lan_ipv6::dhcpv6_config::DHCPv6ServerConfig;
use crate::lan_ipv6::ipv6_ra::{flags_of_byte, ra_flag_default, RouterFlags};
use crate::lan_ipv6::prefix_group::{
    is_ula, max_blocks, ula, LanPrefixGroupConfig, NaPrefixConfig, PdPrefixRangeConfig,
    PrefixParentSource, RaPrefixConfig,
};
use crate::net::Ipv6Addr;
use crate::text::{chars_of, decimal, decimal_text, same_text};

verus! {

/// One prefix that a LAN interface serves.
#[derive(Debug, PartialEq, Eq)]
pub enum LanIPv6SourceConfig {
    RaStatic {
        base_prefix: Ipv6Addr,
        pool_index: u32,
        preferred_lifetime: u32,
        valid_lifetime: u32,
    },
    RaPd { depend_iface: String, pool_index: u32, preferred_lifetime: u32, valid_lifetime: u32 },
    NaStatic { base_prefix: Ipv6Addr, pool_index: u32 },
    NaPd { depend_iface: String, pool_index: u32 },
    PdStatic { base_prefix: Ipv6Addr, base_prefix_len: u8, pool_index: u32, pool_len: u8 },
    PdPd { depend_iface: String, max_source_prefix_len: u8, pool_index: u32, pool_len: u8 },
}

/// The parent prefix of a source.
#[derive(Debug, PartialEq, Eq)]
pub enum ParentPrefixKey {
    Static(Ipv6Addr),
    Pd(String),
}

/// The parent prefix of a source, with the interface name as text.
pub enum SourceParent {
    Static(Ipv6Addr),
    Pd(Seq<char>),
}

impl View for ParentPrefixKey {
    type V = SourceParent;

    open spec fn view(&self) -> SourceParent {
        match *self {
            ParentPrefixKey::Static(addr) => SourceParent::Static(addr),
            ParentPrefixKey::Pd(iface) => SourceParent::Pd(iface@),
        }
    }
}

impl SourceParent {
    pub open spec fn text(self) -> Seq<char> {
        match self {
            SourceParent::Static(addr) => "static("@ + addr.text() + ")"@,
            SourceParent::Pd(iface) => "pd("@ + iface + ")"@,
        }
    }
}

impl ParentPrefixKey {
    pub fn to_text(&self) -> (r: String)
        ensures
            r@ == self@.text(),
    {
        match self {
            ParentPrefixKey::Static(addr) => "static(".to_owned().concat(&addr.to_text()).concat(
                ")",
            ),
            ParentPrefixKey::Pd(iface) => "pd(".to_owned().concat(iface).concat(")"),
        }
    }

    /// Whether both are the same parent.
    pub fn same_parent(&self, other: &Self) -> (r: bool)
        ensures
            r == (self@ == other@),
    {
        match (self, other) {
            (ParentPrefixKey::Static(a), ParentPrefixKey::Static(b)) => *a == *b,
            (ParentPrefixKey::Pd(a), ParentPrefixKey::Pd(b)) => same_text(a, b),
            _ => false,
        }
    }
}

/// A configuration in terms of prefix sources.
#[derive(Debug)]
pub struct LanIPv6Config {
    pub mode: IPv6ServiceMode,
    pub ad_interval: u32,
    pub ra_flag: RouterFlags,
    pub sources: Vec<LanIPv6SourceConfig>,
    pub dhcpv6: Option<DHCPv6ServerConfig>,
}

/// The configuration of one interface in terms of prefix sources.
#[derive(Debug)]
pub struct LanIPv6ServiceConfig {
    pub iface_name: String,
    pub enable: bool,
    pub config: LanIPv6Config,
}

impl Clone for LanIPv6SourceConfig {
    fn clone(&self) -> (r: Self)
        ensures
            r == *self,
    {
        match self {
            LanIPv6SourceConfig::RaStatic {
                base_prefix,
                pool_index,
                preferred_lifetime,
                valid_lifetime,
            } => LanIPv6SourceConfig::RaStatic {
                base_prefix: *base_prefix,
                pool_index: *pool_index,
                preferred_lifetime: *preferred_lifetime,
                valid_lifetime: *valid_lifetime,
            },
            LanIPv6SourceConfig::RaPd {
                depend_iface,
                pool_index,
                preferred_lifetime,
                valid_lifetime,
            } => LanIPv6SourceConfig::RaPd {
                depend_iface: depend_iface.clone(),
                pool_index: *pool_index,
                preferred_lifetime: *preferred_lifetime,
                valid_lifetime: *valid_lifetime,
            },
            LanIPv6SourceConfig::NaStatic { base_prefix, pool_index } => {
                LanIPv6SourceConfig::NaStatic { base_prefix: *base_prefix, pool_index: *pool_index }
            },
            LanIPv6SourceConfig::NaPd { depend_iface, pool_index } => LanIPv6SourceConfig::NaPd {
                depend_iface: depend_iface.clone(),
                pool_index: *pool_index,
            },
            LanIPv6SourceConfig::PdStatic { base_prefix, base_prefix_len, pool_index, pool_len } =>
            LanIPv6SourceConfig::PdStatic {
                base_prefix: *base_prefix,
                base_prefix_len: *base_prefix_len,
                pool_index: *pool_index,
                pool_len: *pool_len,
            },
            LanIPv6SourceConfig::PdPd {
                depend_iface,
                max_source_prefix_len,
                pool_index,
                pool_len,
            } => LanIPv6SourceConfig::PdPd {
                depend_iface: depend_iface.clone(),
                max_source_prefix_len: *max_source_prefix_len,
                pool_index: *pool_index,
                pool_len: *pool_len,
            },
        }
    }
}

impl LanIPv6SourceConfig {
    pub open spec fn parent(self) -> SourceParent {
        match self {
            LanIPv6SourceConfig::RaStatic { base_prefix, .. } => SourceParent::Static(base_prefix),
            LanIPv6SourceConfig::NaStatic { base_prefix, .. } => SourceParent::Static(base_prefix),
            LanIPv6SourceConfig::PdStatic { base_prefix, .. } => SourceParent::Static(base_prefix),
            LanIPv6SourceConfig::RaPd { depend_iface, .. } => SourceParent::Pd(depend_iface@),
            LanIPv6SourceConfig::NaPd { depend_iface, .. } => SourceParent::Pd(depend_iface@),
            LanIPv6SourceConfig::PdPd { depend_iface, .. } => SourceParent::Pd(depend_iface@),
        }
    }

    pub open spec fn kind(self) -> SourceServiceKind {
        if self is RaStatic || self is RaPd {
            SourceServiceKind::Ra
        } else if self is NaStatic || self is NaPd {
            SourceServiceKind::Na
        } else {
            SourceServiceKind::IaPd
        }
    }

    pub open spec fn index(self) -> u32 {
        match self {
            LanIPv6SourceConfig::RaStatic { pool_index, .. } => pool_index,
            LanIPv6SourceConfig::RaPd { pool_index, .. } => pool_index,
            LanIPv6SourceConfig::NaStatic { pool_index, .. } => pool_index,
            LanIPv6SourceConfig::NaPd { pool_index, .. } => pool_index,
            LanIPv6SourceConfig::PdStatic { pool_index, .. } => pool_index,
            LanIPv6SourceConfig::PdPd { pool_index, .. } => pool_index,
        }
    }

    pub open spec fn len(self) -> u8 {
        match self {
            LanIPv6SourceConfig::PdStatic { pool_len, .. } => pool_len,
            LanIPv6SourceConfig::PdPd { pool_len, .. } => pool_len,
            _ => 64,
        }
    }

    pub open spec fn has_static_parent(self) -> bool {
        self is RaStatic || self is NaStatic || self is PdStatic
    }

    pub fn parent_key(&self) -> (r: ParentPrefixKey)
        ensures
            r@ == self.parent(),
    {
        match self {
            LanIPv6SourceConfig::RaStatic { base_prefix, .. }
            | LanIPv6SourceConfig::NaStatic { base_prefix, .. }
            | LanIPv6SourceConfig::PdStatic { base_prefix, .. } => ParentPrefixKey::Static(
                *base_prefix,
            ),
            LanIPv6SourceConfig::RaPd { depend_iface, .. }
            | LanIPv6SourceConfig::NaPd { depend_iface, .. }
            | LanIPv6SourceConfig::PdPd { depend_iface, .. } => ParentPrefixKey::Pd(
                depend_iface.clone(),
            ),
        }
    }

    pub fn service_kind(&self) -> (r: SourceServiceKind)
        ensures
            r == self.kind(),
    {
        match self {
            LanIPv6SourceConfig::RaStatic { .. } | LanIPv6SourceConfig::RaPd { .. } =>
            SourceServiceKind::Ra,
            LanIPv6SourceConfig::NaStatic { .. } | LanIPv6SourceConfig::NaPd { .. } =>
            SourceServiceKind::Na,
            LanIPv6SourceConfig::PdStatic { .. } | LanIPv6SourceConfig::PdPd { .. } =>
            SourceServiceKind::IaPd,
        }
    }

    pub fn pool_index(&self) -> (r: u32)
        ensures
            r == self.index(),
    {
        match self {
            LanIPv6SourceConfig::RaStatic { pool_index, .. }
            | LanIPv6SourceConfig::RaPd { pool_index, .. }
            | LanIPv6SourceConfig::NaStatic { pool_index, .. }
            | LanIPv6SourceConfig::NaPd { pool_index, .. }
            | LanIPv6SourceConfig::PdStatic { pool_index, .. }
            | LanIPv6SourceConfig::PdPd { pool_index, .. } => *pool_index,
        }
    }

    pub fn pool_len(&self) -> (r: u8)
        ensures
            r == self.len(),
    {
        match self {
            LanIPv6SourceConfig::PdStatic { pool_len, .. }
            | LanIPv6SourceConfig::PdPd { pool_len, .. } => *pool_len,
            _ => 64,
        }
    }

    pub fn is_static(&self) -> (r: bool)
        ensures
            r == self.has_static_parent(),
    {
        match self {
            LanIPv6SourceConfig::RaStatic { .. }
            | LanIPv6SourceConfig::NaStatic { .. }
            | LanIPv6SourceConfig::PdStatic { .. } => true,
            _ => false,
        }
    }

    pub fn base_prefix(&self) -> (r: Option<Ipv6Addr>)
        ensures
            r == match self.parent() {
                SourceParent::Static(addr) => Some(addr),
                SourceParent::Pd(_) => None,
            },
    {
        match self {
            LanIPv6SourceConfig::RaStatic { base_prefix, .. }
            | LanIPv6SourceConfig::NaStatic { base_prefix, .. }
            | LanIPv6SourceConfig::PdStatic { base_prefix, .. } => Some(*base_prefix),
            _ => None,
        }
    }

    pub fn depend_iface(&self) -> (r: Option<&str>)
        ensures
            match self.parent() {
                SourceParent::Static(_) => r is None,
                SourceParent::Pd(iface) => r is Some && r->0@ == iface,
            },
    {
        match self {
            LanIPv6SourceConfig::RaPd { depend_iface, .. }
            | LanIPv6SourceConfig::NaPd { depend_iface, .. }
            | LanIPv6SourceConfig::PdPd { depend_iface, .. } => Some(depend_iface.as_str()),
            _ => None,
        }
    }

    /// The length of the parent prefix, where the source names one.
    pub open spec fn named_parent_len(self) -> Option<u8> {
        match self {
            LanIPv6SourceConfig::PdStatic { base_prefix_len, .. } => Some(base_prefix_len),
            LanIPv6SourceConfig::PdPd { max_source_prefix_len, .. } => Some(max_source_prefix_len),
            _ => None,
        }
    }

    fn parent_len(&self) -> (r: Option<u8>)
        ensures
            r == self.named_parent_len(),
    {
        match self {
            LanIPv6SourceConfig::PdStatic { base_prefix_len, .. } => Some(*base_prefix_len),
            LanIPv6SourceConfig::PdPd { max_source_prefix_len, .. } => Some(*max_source_prefix_len),
            _ => None,
        }
    }

    /// The first thing wrong with the source in itself.
    pub open spec fn verdict(self) -> Verdict {
        match self {
            LanIPv6SourceConfig::PdStatic { base_prefix_len, pool_index, pool_len, .. } => {
                if pool_len <= base_prefix_len {
                    Verdict::Fault(
                        "PdStatic pool_len ("@ + decimal(pool_len as nat)
                            + ") must be > base_prefix_len ("@ + decimal(base_prefix_len as nat)
                            + ")"@,
                    )
                } else if pool_len > 128 {
                    Verdict::Fault(
                        "PdStatic pool_len ("@ + decimal(pool_len as nat) + ") must be <= 128"@,
                    )
                } else if pool_index >= pow2((pool_len - base_prefix_len) as nat) {
                    Verdict::Fault(
                        "PdStatic pool_index ("@ + decimal(pool_index as nat)
                            + ") exceeds max blocks ("@ + decimal(
                            pow2((pool_len - base_prefix_len) as nat),
                        ) + ") for base_prefix_len="@ + decimal(base_prefix_len as nat)
                            + ", pool_len="@ + decimal(pool_len as nat),
                    )
                } else {
                    Verdict::Clean
                }
            },
            LanIPv6SourceConfig::PdPd { pool_len, .. } => if pool_len == 0 || pool_len > 128 {
                Verdict::Fault(
                    "PdPd pool_len ("@ + decimal(pool_len as nat) + ") must be between 1 and 128"@,
                )
            } else {
                Verdict::Clean
            },
            _ => Verdict::Clean,
        }
    }

    /// What two conflicting sources are told of one of them.
    pub open spec fn conflict_text(self) -> Seq<char> {
        "(pool_index="@ + decimal(self.index() as nat) + ", effective_index="@ + decimal(
            self.index() as nat,
        ) + ", pool_len="@ + decimal(self.len() as nat) + ")"@
    }

    fn to_conflict_text(&self) -> (r: String)
        ensures
            r@ == self.conflict_text(),
    {
        "(pool_index=".to_owned().concat(&decimal_text(self.pool_index() as u128)).concat(
            ", effective_index=",
        ).concat(&decimal_text(effective_pool_index(self) as u128)).concat(", pool_len=").concat(
            &decimal_text(self.pool_len() as u128),
        ).concat(")")
    }
}

fn effective_pool_index(src: &LanIPv6SourceConfig) -> (r: u64)
    ensures
        r == src.index(),
{
    src.pool_index() as u64
}

/// Checks a source in itself.
pub fn validate_source_entry(src: &LanIPv6SourceConfig) -> (r: Result<(), ServiceConfigError>)
    ensures
        verdict_of(r) == src.verdict(),
{
    match src {
        LanIPv6SourceConfig::PdStatic { base_prefix_len, pool_index, pool_len, .. } => {
            if *pool_len <= *base_prefix_len {
                return invalid(
                    "PdStatic pool_len (".to_owned().concat(&decimal_text(*pool_len as u128)).concat(
                        ") must be > base_prefix_len (",
                    ).concat(&decimal_text(*base_prefix_len as u128)).concat(")"),
                );
            }
            if *pool_len > 128 {
                return invalid(
                    "PdStatic pool_len (".to_owned().concat(&decimal_text(*pool_len as u128)).concat(
                        ") must be <= 128",
                    ),
                );
            }
            let blocks: u64 = max_blocks(*pool_len - *base_prefix_len);
            if (*pool_index as u64) >= blocks {
                return invalid(
                    "PdStatic pool_index (".to_owned().concat(
                        &decimal_text(*pool_index as u128),
                    ).concat(") exceeds max blocks (").concat(&decimal_text(blocks as u128)).concat(
                        ") for base_prefix_len=",
                    ).concat(&decimal_text(*base_prefix_len as u128)).concat(", pool_len=").concat(
                        &decimal_text(*pool_len as u128),
                    ),
                );
            }
        },
        LanIPv6SourceConfig::PdPd { pool_len, .. } => {
            if *pool_len == 0 || *pool_len > 128 {
                return invalid(
                    "PdPd pool_len (".to_owned().concat(&decimal_text(*pool_len as u128)).concat(
                        ") must be between 1 and 128",
                    ),
                );
            }
        },
        _ => {},
    }
    Ok(())
}

/// Whether one of two sources announces addresses and the other assigns them.
pub open spec fn ra_and_na(a: LanIPv6SourceConfig, b: LanIPv6SourceConfig) -> bool {
    (a.kind() is Ra && b.kind() is Na) || (a.kind() is Na && b.kind() is Ra)
}

/// What comes of comparing the blocks of two sources, where a conflict is
/// reported as `text`.
pub open spec fn overlap_verdict(
    a: LanIPv6SourceConfig,
    b: LanIPv6SourceConfig,
    text: Seq<char>,
) -> Verdict {
    if ra_and_na(a, b) {
        Verdict::Clean
    } else if !blocks_fit(a.index() as u64, a.len(), b.index() as u64, b.len()) {
        Verdict::Overflow
    } else if blocks_meet(a.index() as u64, a.len(), b.index() as u64, b.len()) {
        Verdict::Fault(text)
    } else {
        Verdict::Clean
    }
}

/// What is reported of two sources of one interface that conflict.
pub open spec fn source_conflict_text(
    parent: SourceParent,
    a: LanIPv6SourceConfig,
    b: LanIPv6SourceConfig,
) -> Seq<char> {
    "Source conflict under parent "@ + parent.text() + ": "@ + a.conflict_text()
        + " overlaps with "@ + b.conflict_text() + "; PD-derived sources reserve WAN subnet 0"@
}

/// What comes of comparing two sources under one parent.
pub open spec fn source_pair_verdict(
    parent: SourceParent,
    a: LanIPv6SourceConfig,
    b: LanIPv6SourceConfig,
) -> Verdict {
    overlap_verdict(a, b, source_conflict_text(parent, a, b))
}

/// The longer of the parent lengths that two sources name.
pub open spec fn effective_parent_len(a: LanIPv6SourceConfig, b: LanIPv6SourceConfig) -> u8 {
    match (a.named_parent_len(), b.named_parent_len()) {
        (Some(x), Some(y)) => if x < y {
            y
        } else {
            x
        },
        (Some(x), None) => x,
        (None, Some(y)) => y,
        (None, None) => 0,
    }
}

pub fn get_effective_parent_len(a: &LanIPv6SourceConfig, b: &LanIPv6SourceConfig) -> (r: u8)
    ensures
        r == effective_parent_len(*a, *b),
{
    match (a.parent_len(), b.parent_len()) {
        (Some(x), Some(y)) => if x < y {
            y
        } else {
            x
        },
        (Some(x), None) => x,
        (None, Some(y)) => y,
        (None, None) => 0,
    }
}

fn announces_and_assigns(a: &LanIPv6SourceConfig, b: &LanIPv6SourceConfig) -> (r: bool)
    ensures
        r == ra_and_na(*a, *b),
{
    let kind_a = a.service_kind();
    let kind_b = b.service_kind();
    (kind_a == SourceServiceKind::Ra && kind_b == SourceServiceKind::Na) || (kind_a
        == SourceServiceKind::Na && kind_b == SourceServiceKind::Ra)
}

fn sources_overlap(a: &LanIPv6SourceConfig, b: &LanIPv6SourceConfig) -> (r: bool)
    requires
        blocks_fit(a.index() as u64, a.len(), b.index() as u64, b.len()),
    ensures
        r == blocks_meet(a.index() as u64, a.len(), b.index() as u64, b.len()),
{
    let parent_len: u8 = get_effective_parent_len(a, b);
    blocks_overlap(
        parent_len,
        effective_pool_index(a),
        a.pool_len(),
        effective_pool_index(b),
        b.pool_len(),
    )
}

/// Compares two sources under one parent.
pub fn check_pair_conflict(
    key: &ParentPrefixKey,
    a: &LanIPv6SourceConfig,
    b: &LanIPv6SourceConfig,
) -> (r: Result<(), ServiceConfigError>)
    requires
        !(source_pair_verdict(key@, *a, *b) is Overflow),
    ensures
        verdict_of(r) == source_pair_verdict(key@, *a, *b),
{
    if announces_and_assigns(a, b) {
        return Ok(());
    }
    if sources_overlap(a, b) {
        return invalid(
            "Source conflict under parent ".to_owned().concat(&key.to_text()).concat(": ").concat(
                &a.to_conflict_text(),
            ).concat(" overlaps with ").concat(&b.to_conflict_text()).concat(
                "; PD-derived sources reserve WAN subnet 0",
            ),
        );
    }
    Ok(())
}

/// The first conflict among sources under one parent, from the pair `(i, j)` on.
pub open spec fn sources_conflict_verdict(s: Seq<LanIPv6SourceConfig>, i: int, j: int) -> Verdict
    decreases s.len() - i, s.len() - j,
{
    if i < 0 || i >= s.len() {
        Verdict::Clean
    } else if j >= s.len() {
        sources_conflict_verdict(s, i + 1, i + 2)
    } else if s[i].parent() != s[j].parent() {
        sources_conflict_verdict(s, i, j + 1)
    } else {
        source_pair_verdict(s[i].parent(), s[i], s[j]).or_else(
            sources_conflict_verdict(s, i, j + 1),
        )
    }
}

pub fn validate_sources_no_conflict(sources: &[LanIPv6SourceConfig]) -> (r: Result<
    (),
    ServiceConfigError,
>)
    requires
        !(sources_conflict_verdict(sources@, 0, 1) is Overflow),
    ensures
        verdict_of(r) == sources_conflict_verdict(sources@, 0, 1),
{
    let n: usize = sources.len();
    let ghost whole = sources_conflict_verdict(sources@, 0, 1);
    for i in 0..n
        invariant
            n == sources@.len(),
            !(whole is Overflow),
            whole == sources_conflict_verdict(sources@, 0, 1),
            whole == sources_conflict_verdict(sources@, i as int, i + 1),
    {
        let key = sources[i].parent_key();
        for j in (i + 1)..n
            invariant
                i < n,
                n == sources@.len(),
                key@ == sources@[i as int].parent(),
                !(whole is Overflow),
                whole == sources_conflict_verdict(sources@, 0, 1),
                whole == sources_conflict_verdict(sources@, i as int, j as int),
        {
            if key.same_parent(&sources[j].parent_key()) {
                let checked = check_pair_conflict(&key, &sources[i], &sources[j]);
                if checked.is_err() {
                    return checked;
                }
            }
        }
    }
    Ok(())
}

/// Whether a source is served in a mode.
pub open spec fn served_in(mode: IPv6ServiceMode, src: LanIPv6SourceConfig) -> bool {
    match mode {
        IPv6ServiceMode::Slaac => src.kind() is Ra,
        IPv6ServiceMode::Stateful => src.kind() is Na || src.kind() is IaPd,
        IPv6ServiceMode::SlaacDhcpv6 => true,
    }
}

/// The first source from number `i` on that is wrong in itself.
pub open spec fn each_source_verdict(s: Seq<LanIPv6SourceConfig>, i: int) -> Verdict
    decreases s.len() - i,
{
    if i < 0 || i >= s.len() {
        Verdict::Clean
    } else {
        s[i].verdict().or_else(each_source_verdict(s, i + 1))
    }
}

/// The first announced source from number `i` on that is not a static unique
/// local prefix.
pub open spec fn ula_sources_verdict(s: Seq<LanIPv6SourceConfig>, i: int) -> Verdict
    decreases s.len() - i,
{
    if i < 0 || i >= s.len() {
        Verdict::Clean
    } else {
        match s[i] {
            LanIPv6SourceConfig::RaStatic { base_prefix, .. } => if ula(base_prefix) {
                ula_sources_verdict(s, i + 1)
            } else {
                Verdict::Fault(
                    "SlaacDhcpv6 mode requires RA sources to be ULA (fc00::/7), got: "@
                        + base_prefix.text(),
                )
            },
            LanIPv6SourceConfig::RaPd { .. } => Verdict::Fault(
                "SlaacDhcpv6 mode only allows Static RA sources"@,
            ),
            _ => ula_sources_verdict(s, i + 1),
        }
    }
}

/// Whether some source is of the given kind.
pub open spec fn any_of_kind(s: Seq<LanIPv6SourceConfig>, kind: SourceServiceKind) -> bool {
    exists|i: int| 0 <= i < s.len() && (#[trigger] s[i]).kind() == kind
}

impl LanIPv6Config {
    /// The sources that are served in the mode, in their order.
    pub open spec fn active(self) -> Seq<LanIPv6SourceConfig> {
        self.sources@.filter(|s: LanIPv6SourceConfig| served_in(self.mode, s))
    }

    /// The first thing that the mode does not allow.
    pub open spec fn mode_verdict(self) -> Verdict {
        let s = self.sources@;
        let managed = self.ra_flag.managed_address_config && self.ra_flag.other_config;
        match self.mode {
            IPv6ServiceMode::Slaac => if !any_of_kind(s, SourceServiceKind::Ra) {
                Verdict::Fault("Slaac mode requires at least one RA prefix source"@)
            } else {
                slaac_flags_verdict(self.ra_flag, self.dhcpv6)
            },
            IPv6ServiceMode::Stateful => if !managed {
                Verdict::Fault("Stateful mode requires M=1 and O=1"@)
            } else if !any_of_kind(s, SourceServiceKind::Na) {
                Verdict::Fault("Stateful mode requires at least one DHCPv6 NA prefix source"@)
            } else {
                running_dhcpv6_verdict("Stateful"@, self.dhcpv6)
            },
            IPv6ServiceMode::SlaacDhcpv6 => if !managed {
                Verdict::Fault("SlaacDhcpv6 mode requires M=1 and O=1"@)
            } else if !any_of_kind(s, SourceServiceKind::Ra) {
                Verdict::Fault("SlaacDhcpv6 mode requires at least one RA prefix source"@)
            } else {
                ula_sources_verdict(s, 0).or_else(
                    if !any_of_kind(s, SourceServiceKind::Na) && !any_of_kind(
                        s,
                        SourceServiceKind::IaPd,
                    ) {
                        Verdict::Fault(
                            "SlaacDhcpv6 mode requires at least one DHCPv6 prefix source (Na or Pd)"@,
                        )
                    } else {
                        running_dhcpv6_verdict("SlaacDhcpv6"@, self.dhcpv6)
                    },
                )
            },
        }
    }

    /// The first thing wrong with the configuration.
    pub open spec fn verdict(self) -> Verdict {
        each_source_verdict(self.sources@, 0).or_else(
            sources_conflict_verdict(self.active(), 0, 1),
        ).or_else(self.mode_verdict())
    }

    pub fn validate(&self) -> (r: Result<(), ServiceConfigError>)
        requires
            !(self.verdict() is Overflow),
        ensures
            verdict_of(r) == self.verdict(),
    {
        let n: usize = self.sources.len();
        for i in 0..n
            invariant
                n == self.sources@.len(),
                each_source_verdict(self.sources@, 0) == each_source_verdict(
                    self.sources@,
                    i as int,
                ),
        {
            let checked = validate_source_entry(&self.sources[i]);
            if checked.is_err() {
                return checked;
            }
        }
        let active_sources = self.active_sources();
        let apart = validate_sources_no_conflict(&active_sources);
        if apart.is_err() {
            return apart;
        }
        match self.mode {
            IPv6ServiceMode::Slaac => self.validate_slaac(),
            IPv6ServiceMode::Stateful => self.validate_stateful(),
            IPv6ServiceMode::SlaacDhcpv6 => self.validate_slaac_dhcpv6(),
        }
    }

    pub fn active_sources(&self) -> (r: Vec<LanIPv6SourceConfig>)
        ensures
            r@ == self.active(),
    {
        let mut result: Vec<LanIPv6SourceConfig> = Vec::new();
        let n: usize = self.sources.len();
        let ghost keep = |s: LanIPv6SourceConfig| served_in(self.mode, s);
        let ghost all = self.sources@;
        proof {
            reveal(Seq::filter);
        }
        assert(result@ =~= all.take(0).filter(keep));
        for i in 0..n
            invariant
                n == all.len(),
                all == self.sources@,
                keep == (|s: LanIPv6SourceConfig| served_in(self.mode, s)),
                result@ == all.take(i as int).filter(keep),
        {
            let src = &self.sources[i];
            let served: bool = match self.mode {
                IPv6ServiceMode::Slaac => src.service_kind() == SourceServiceKind::Ra,
                IPv6ServiceMode::Stateful => src.service_kind() == SourceServiceKind::Na
                    || src.service_kind() == SourceServiceKind::IaPd,
                IPv6ServiceMode::SlaacDhcpv6 => true,
            };
            if served {
                result.push(src.clone());
            }
            proof {
                reveal(Seq::filter);
                assert(all.take(i + 1).drop_last() =~= all.take(i as int));
            }
        }
        assert(all.take(n as int) =~= all);
        result
    }

    fn has_kind(&self, kind: SourceServiceKind) -> (r: bool)
        ensures
            r == any_of_kind(self.sources@, kind),
    {
        let n: usize = self.sources.len();
        for i in 0..n
            invariant
                n == self.sources@.len(),
                forall|k: int| 0 <= k < i ==> (#[trigger] self.sources@[k]).kind() != kind,
        {
            if self.sources[i].service_kind() == kind {
                return true;
            }
        }
        false
    }

    fn validate_slaac(&self) -> (r: Result<(), ServiceConfigError>)
        requires
            self.mode is Slaac,
        ensures
            verdict_of(r) == self.mode_verdict(),
    {
        if !self.has_kind(SourceServiceKind::Ra) {
            return invalid_because("Slaac mode requires at least one RA prefix source");
        }
        validate_slaac_flags(self.ra_flag, &self.dhcpv6)
    }

    fn validate_stateful(&self) -> (r: Result<(), ServiceConfigError>)
        requires
            self.mode is Stateful,
        ensures
            verdict_of(r) == self.mode_verdict(),
    {
        if !self.ra_flag.managed_address_config || !self.ra_flag.other_config {
            return invalid_because("Stateful mode requires M=1 and O=1");
        }
        if !self.has_kind(SourceServiceKind::Na) {
            return invalid_because("Stateful mode requires at least one DHCPv6 NA prefix source");
        }
        validate_running_dhcpv6("Stateful", &self.dhcpv6)
    }

    fn validate_slaac_dhcpv6(&self) -> (r: Result<(), ServiceConfigError>)
        requires
            self.mode is SlaacDhcpv6,
        ensures
            verdict_of(r) == self.mode_verdict(),
    {
        if !self.ra_flag.managed_address_config || !self.ra_flag.other_config {
            return invalid_because("SlaacDhcpv6 mode requires M=1 and O=1");
        }
        if !self.has_kind(SourceServiceKind::Ra) {
            return invalid_because("SlaacDhcpv6 mode requires at least one RA prefix source");
        }
        let n: usize = self.sources.len();
        for i in 0..n
            invariant
                n == self.sources@.len(),
                self.mode is SlaacDhcpv6,
                self.ra_flag.managed_address_config && self.ra_flag.other_config,
                any_of_kind(self.sources@, SourceServiceKind::Ra),
                ula_sources_verdict(self.sources@, 0) == ula_sources_verdict(
                    self.sources@,
                    i as int,
                ),
        {
            match &self.sources[i] {
                LanIPv6SourceConfig::RaStatic { base_prefix, .. } => {
                    if !is_ula(*base_prefix) {
                        return invalid(
                            "SlaacDhcpv6 mode requires RA sources to be ULA (fc00::/7), got: ".to_owned().concat(
                            &base_prefix.to_text()),
                        );
                    }
                },
                LanIPv6SourceConfig::RaPd { .. } => {
                    return invalid_because("SlaacDhcpv6 mode only allows Static RA sources");
                },
                _ => {},
            }
        }
        if !self.has_kind(SourceServiceKind::Na) && !self.has_kind(SourceServiceKind::IaPd) {
            return invalid_because(
                "SlaacDhcpv6 mode requires at least one DHCPv6 prefix source (Na or Pd)",
            );
        }
        validate_running_dhcpv6("SlaacDhcpv6", &self.dhcpv6)
    }

    pub fn sources_by_kind(&self, kind: SourceServiceKind) -> (r: Vec<&LanIPv6SourceConfig>)
        ensures
            r@.map_values(|s: &LanIPv6SourceConfig| *s) == self.sources@.filter(
                |s: LanIPv6SourceConfig| s.kind() == kind,
            ),
    {
        let mut result: Vec<&LanIPv6SourceConfig> = Vec::new();
        let n: usize = self.sources.len();
        let ghost keep = |s: LanIPv6SourceConfig| s.kind() == kind;
        let ghost all = self.sources@;
        proof {
            reveal(Seq::filter);
        }
        assert(result@.map_values(|s: &LanIPv6SourceConfig| *s) =~= all.take(0).filter(keep));
        for i in 0..n
            invariant
                n == all.len(),
                all == self.sources@,
                keep == (|s: LanIPv6SourceConfig| s.kind() == kind),
                result@.map_values(|s: &LanIPv6SourceConfig| *s) == all.take(i as int).filter(keep),
        {
            let src = &self.sources[i];
            let ghost before = result@;
            if src.service_kind() == kind {
                result.push(src);
                assert(result@.map_values(|s: &LanIPv6SourceConfig| *s) =~= before.map_values(
                    |s: &LanIPv6SourceConfig| *s,
                ).push(*src));
            }
            proof {
                reveal(Seq::filter);
                assert(all.take(i + 1).drop_last() =~= all.take(i as int));
            }
        }
        assert(all.take(n as int) =~= all);
        result
    }

    pub fn new(depend_iface: String) -> (r: Self)
        ensures
            r.mode is Slaac,
            r.ad_interval == 300,
            r.ra_flag == flags_of_byte(0xc0),
            r.dhcpv6 is None,
            r.sources@ == seq![
                LanIPv6SourceConfig::RaPd {
                    depend_iface,
                    pool_index: 0,
                    preferred_lifetime: 300,
                    valid_lifetime: 300,
                },
            ],
    {
        let mut sources: Vec<LanIPv6SourceConfig> = Vec::new();
        sources.push(
            LanIPv6SourceConfig::RaPd {
                depend_iface,
                pool_index: 0,
                preferred_lifetime: 300,
                valid_lifetime: 300,
            },
        );
        LanIPv6Config {
            mode: IPv6ServiceMode::Slaac,
            sources,
            ra_flag: ra_flag_default(),
            ad_interval: 300,
            dhcpv6: None,
        }
    }
}

/// What is reported of a source that conflicts with one of another interface.
pub open spec fn cross_conflict_text(
    a: LanIPv6SourceConfig,
    iface_a: Seq<char>,
    b: LanIPv6SourceConfig,
    iface_b: Seq<char>,
) -> Seq<char> {
    "Cross-interface conflict: "@ + a.parent().text() + " source "@ + a.conflict_text() + " on '"@
        + iface_a + "' overlaps with "@ + b.conflict_text() + " on '"@ + iface_b
        + "'; PD-derived sources reserve WAN subnet 0"@
}

/// The first conflict between the sources of two interfaces under one parent,
/// from the pair `(i, j)` on.
pub open spec fn cross_sources_verdict(
    new: Seq<LanIPv6SourceConfig>,
    iface: Seq<char>,
    other: Seq<LanIPv6SourceConfig>,
    other_iface: Seq<char>,
    i: int,
    j: int,
) -> Verdict
    decreases new.len() - i, other.len() - j,
{
    if i < 0 || i >= new.len() {
        Verdict::Clean
    } else if j >= other.len() {
        cross_sources_verdict(new, iface, other, other_iface, i + 1, 0)
    } else if new[i].parent() != other[j].parent() {
        cross_sources_verdict(new, iface, other, other_iface, i, j + 1)
    } else {
        overlap_verdict(
            new[i],
            other[j],
            cross_conflict_text(new[i], iface, other[j], other_iface),
        ).or_else(cross_sources_verdict(new, iface, other, other_iface, i, j + 1))
    }
}

/// The first conflict of a configuration with the enabled ones of other
/// interfaces from number `k` on.
pub open spec fn cross_interface_verdict(
    new_config: LanIPv6ServiceConfig,
    others: Seq<LanIPv6ServiceConfig>,
    k: int,
) -> Verdict
    decreases others.len() - k,
{
    if k < 0 || k >= others.len() {
        Verdict::Clean
    } else if others[k].iface_name@ == new_config.iface_name@ || !others[k].enable {
        cross_interface_verdict(new_config, others, k + 1)
    } else {
        cross_sources_verdict(
            new_config.config.active(),
            new_config.iface_name@,
            others[k].config.active(),
            others[k].iface_name@,
            0,
            0,
        ).or_else(cross_interface_verdict(new_config, others, k + 1))
    }
}

fn validate_cross_sources(
    new_sources: &Vec<LanIPv6SourceConfig>,
    new_iface: &str,
    other_sources: &Vec<LanIPv6SourceConfig>,
    other_iface: &str,
) -> (r: Result<(), ServiceConfigError>)
    requires
        !(cross_sources_verdict(
            new_sources@,
            new_iface@,
            other_sources@,
            other_iface@,
            0,
            0,
        ) is Overflow),
    ensures
        verdict_of(r) == cross_sources_verdict(
            new_sources@,
            new_iface@,
            other_sources@,
            other_iface@,
            0,
            0,
        ),
{
    let n: usize = new_sources.len();
    let m: usize = other_sources.len();
    let ghost (a, x) = (new_sources@, new_iface@);
    let ghost (b, y) = (other_sources@, other_iface@);
    let ghost whole = cross_sources_verdict(a, x, b, y, 0, 0);
    for i in 0..n
        invariant
            n == a.len(),
            m == b.len(),
            a == new_sources@ && x == new_iface@,
            b == other_sources@ && y == other_iface@,
            !(whole is Overflow),
            whole == cross_sources_verdict(a, x, b, y, 0, 0),
            whole == cross_sources_verdict(a, x, b, y, i as int, 0),
    {
        let new_src = &new_sources[i];
        let key = new_src.parent_key();
        for j in 0..m
            invariant
                i < n,
                n == a.len(),
                m == b.len(),
                *new_src == a[i as int],
                key@ == new_src.parent(),
                a == new_sources@ && x == new_iface@,
                b == other_sources@ && y == other_iface@,
                !(whole is Overflow),
                whole == cross_sources_verdict(a, x, b, y, 0, 0),
                whole == cross_sources_verdict(a, x, b, y, i as int, j as int),
        {
            let other_src = &other_sources[j];
            if key.same_parent(&other_src.parent_key()) && new_src.is_static()
                == other_src.is_static() && !announces_and_assigns(new_src, other_src) {
                if sources_overlap(new_src, other_src) {
                    return invalid(
                        "Cross-interface conflict: ".to_owned().concat(&key.to_text()).concat(
                            " source ",
                        ).concat(&new_src.to_conflict_text()).concat(" on '").concat(
                            new_iface,
                        ).concat("' overlaps with ").concat(&other_src.to_conflict_text()).concat(
                            " on '",
                        ).concat(other_iface).concat("'; PD-derived sources reserve WAN subnet 0"),
                    );
                }
            }
        }
    }
    Ok(())
}

pub fn validate_cross_interface(
    new_config: &LanIPv6ServiceConfig,
    other_configs: &[LanIPv6ServiceConfig],
) -> (r: Result<(), ServiceConfigError>)
    requires
        !(cross_interface_verdict(*new_config, other_configs@, 0) is Overflow),
    ensures
        verdict_of(r) == cross_interface_verdict(*new_config, other_configs@, 0),
{
    let new_sources = new_config.config.active_sources();
    let n: usize = other_configs.len();
    let ghost whole = cross_interface_verdict(*new_config, other_configs@, 0);
    for k in 0..n
        invariant
            n == other_configs@.len(),
            new_sources@ == new_config.config.active(),
            !(whole is Overflow),
            whole == cross_interface_verdict(*new_config, other_configs@, 0),
            whole == cross_interface_verdict(*new_config, other_configs@, k as int),
    {
        let other = &other_configs[k];
        if !same_text(&other.iface_name, &new_config.iface_name) && other.enable {
            let other_active = other.config.active_sources();
            let checked = validate_cross_sources(
                &new_sources,
                &new_config.iface_name,
                &other_active,
                &other.iface_name,
            );
            if checked.is_err() {
                return checked;
            }
        }
    }
    Ok(())
}

/// The parent that a source's group gets; a source that names no parent
/// length gets 60.
pub open spec fn legacy_parent(source: LanIPv6SourceConfig) -> PrefixParentSource {
    match source {
        LanIPv6SourceConfig::RaStatic { base_prefix, .. } => PrefixParentSource::Static {
            base_prefix,
            parent_prefix_len: 60,
        },
        LanIPv6SourceConfig::NaStatic { base_prefix, .. } => PrefixParentSource::Static {
            base_prefix,
            parent_prefix_len: 60,
        },
        LanIPv6SourceConfig::PdStatic { base_prefix, base_prefix_len, .. } => {
            PrefixParentSource::Static { base_prefix, parent_prefix_len: base_prefix_len }
        },
        LanIPv6SourceConfig::RaPd { depend_iface, .. } => PrefixParentSource::Pd {
            depend_iface,
            planned_parent_prefix_len: 60,
        },
        LanIPv6SourceConfig::NaPd { depend_iface, .. } => PrefixParentSource::Pd {
            depend_iface,
            planned_parent_prefix_len: 60,
        },
        LanIPv6SourceConfig::PdPd { depend_iface, max_source_prefix_len, .. } => {
            PrefixParentSource::Pd {
                depend_iface,
                planned_parent_prefix_len: max_source_prefix_len,
            }
        },
    }
}

fn legacy_source_parent(source: &LanIPv6SourceConfig) -> (r: PrefixParentSource)
    ensures
        r == legacy_parent(*source),
{
    match source {
        LanIPv6SourceConfig::RaStatic { base_prefix, .. }
        | LanIPv6SourceConfig::NaStatic { base_prefix, .. } => PrefixParentSource::Static {
            base_prefix: *base_prefix,
            parent_prefix_len: 60,
        },
        LanIPv6SourceConfig::PdStatic { base_prefix, base_prefix_len, .. } => {
            PrefixParentSource::Static {
                base_prefix: *base_prefix,
                parent_prefix_len: *base_prefix_len,
            }
        },
        LanIPv6SourceConfig::RaPd { depend_iface, .. }
        | LanIPv6SourceConfig::NaPd { depend_iface, .. } => PrefixParentSource::Pd {
            depend_iface: depend_iface.clone(),
            planned_parent_prefix_len: 60,
        },
        LanIPv6SourceConfig::PdPd { depend_iface, max_source_prefix_len, .. } => {
            PrefixParentSource::Pd {
                depend_iface: depend_iface.clone(),
                planned_parent_prefix_len: *max_source_prefix_len,
            }
        },
    }
}

/// `s` with each pair of slashes, taken from the left, made one.
pub open spec fn halved_slashes(s: Seq<char>) -> Seq<char>
    decreases s.len(),
{
    if s.len() == 0 {
        s
    } else if s.len() >= 2 && s[0] == '/' && s[1] == '/' {
        seq!['/'] + halved_slashes(s.subrange(2, s.len() as int))
    } else {
        seq![s[0]] + halved_slashes(s.subrange(1, s.len() as int))
    }
}

fn halve_slashes(s: &str) -> (r: String)
    ensures
        r@ == halved_slashes(s@),
{
    let cs = chars_of(s);
    let n: usize = cs.len();
    let mut r = String::new();
    let mut i: usize = 0;
    assert(cs@.subrange(0, n as int) =~= cs@);
    assert(r@ + halved_slashes(cs@) =~= halved_slashes(cs@));
    while i < n
        invariant
            i <= n,
            n == cs@.len(),
            cs@ == s@,
            r@ + halved_slashes(cs@.subrange(i as int, n as int)) == halved_slashes(s@),
        decreases n - i,
    {
        let ghost rest = cs@.subrange(i as int, n as int);
        let ghost before = r@;
        r.push(cs[i]);
        if i + 1 < n && cs[i] == '/' && cs[i + 1] == '/' {
            assert(rest.subrange(2, rest.len() as int) =~= cs@.subrange(i + 2, n as int));
            i += 2;
        } else {
            assert(rest.subrange(1, rest.len() as int) =~= cs@.subrange(i + 1, n as int));
            i += 1;
        }
        let ghost tail = halved_slashes(cs@.subrange(i as int, n as int));
        assert(r@ + tail =~= before + halved_slashes(rest));
    }
    assert(r@ =~= halved_slashes(s@));
    r
}

/// The name of the group made from the source at a position.
pub open spec fn legacy_group_id(index: usize, source: LanIPv6SourceConfig) -> Seq<char> {
    let kind = match source.kind() {
        SourceServiceKind::Ra => "ra"@,
        SourceServiceKind::Na => "na"@,
        SourceServiceKind::IaPd => "pd"@,
    };
    let base = match legacy_parent(source) {
        PrefixParentSource::Static { base_prefix, parent_prefix_len } => "legacy:static:"@ + kind
            + ":"@ + base_prefix.text() + "/"@ + decimal(parent_prefix_len as nat),
        PrefixParentSource::Pd { depend_iface, planned_parent_prefix_len } => "legacy:pd:"@ + kind
            + ":"@ + depend_iface@ + "/"@ + decimal(planned_parent_prefix_len as nat),
    };
    halved_slashes(base) + ":"@ + decimal(index as nat)
}

fn legacy_source_group_id(index: usize, source: &LanIPv6SourceConfig) -> (r: String)
    ensures
        r@ == legacy_group_id(index, *source),
{
    let kind = match source.service_kind() {
        SourceServiceKind::Ra => "ra",
        SourceServiceKind::Na => "na",
        SourceServiceKind::IaPd => "pd",
    };
    let base = match legacy_source_parent(source) {
        PrefixParentSource::Static { base_prefix, parent_prefix_len } => {
            "legacy:static:".to_owned().concat(kind).concat(":").concat(
                &base_prefix.to_text(),
            ).concat("/").concat(&decimal_text(parent_prefix_len as u128))
        },
        PrefixParentSource::Pd { depend_iface, planned_parent_prefix_len } => {
            "legacy:pd:".to_owned().concat(kind).concat(":").concat(&depend_iface).concat(
                "/",
            ).concat(&decimal_text(planned_parent_prefix_len as u128))
        },
    };
    halve_slashes(&base).concat(":").concat(&decimal_text(index as u128))
}

/// Whether a group says what the source at a position said.
pub open spec fn group_of_source(
    group: LanPrefixGroupConfig,
    index: usize,
    source: LanIPv6SourceConfig,
) -> bool {
    &&& group.group_id@ == legacy_group_id(index, source)
    &&& group.parent == legacy_parent(source)
    &&& group.ra == match source {
        LanIPv6SourceConfig::RaStatic { pool_index, preferred_lifetime, valid_lifetime, .. } =>
        Some(RaPrefixConfig { pool_index, preferred_lifetime, valid_lifetime }),
        LanIPv6SourceConfig::RaPd { pool_index, preferred_lifetime, valid_lifetime, .. } => Some(
            RaPrefixConfig { pool_index, preferred_lifetime, valid_lifetime },
        ),
        _ => None,
    }
    &&& group.na == if source.kind() is Na {
        Some(NaPrefixConfig { pool_index: source.index() })
    } else {
        None
    }
    &&& group.pd == if source.kind() is IaPd {
        Some(
            PdPrefixRangeConfig {
                pool_len: source.len(),
                start_index: source.index(),
                end_index: source.index(),
            },
        )
    } else {
        None
    }
}

fn legacy_source_to_group(index: usize, source: &LanIPv6SourceConfig) -> (r: LanPrefixGroupConfig)
    ensures
        group_of_source(r, index, *source),
{
    let (ra, na, pd) = match source {
        LanIPv6SourceConfig::RaStatic { pool_index, preferred_lifetime, valid_lifetime, .. }
        | LanIPv6SourceConfig::RaPd { pool_index, preferred_lifetime, valid_lifetime, .. } => (
            Some(
                RaPrefixConfig {
                    pool_index: *pool_index,
                    preferred_lifetime: *preferred_lifetime,
                    valid_lifetime: *valid_lifetime,
                },
            ),
            None,
            None,
        ),
        LanIPv6SourceConfig::NaStatic { pool_index, .. }
        | LanIPv6SourceConfig::NaPd { pool_index, .. } => (
            None,
            Some(NaPrefixConfig { pool_index: *pool_index }),
            None,
        ),
        LanIPv6SourceConfig::PdStatic { pool_index, pool_len, .. }
        | LanIPv6SourceConfig::PdPd { pool_index, pool_len, .. } => (
            None,
            None,
            Some(
                PdPrefixRangeConfig {
                    pool_len: *pool_len,
                    start_index: *pool_index,
                    end_index: *pool_index,
                },
            ),
        ),
    };
    LanPrefixGroupConfig {
        group_id: legacy_source_group_id(index, source),
        parent: legacy_source_parent(source),
        ra,
        na,
        pd,
    }
}

/// Whether a configuration of groups says what one of sources said: one group
/// for each source, in order, and all else the same.
pub open spec fn config_of_sources(v2: LanIPv6ConfigV2, v1: LanIPv6Config) -> bool {
    &&& v2.mode == v1.mode
    &&& v2.ad_interval == v1.ad_interval
    &&& v2.ra_flag == v1.ra_flag
    &&& v2.dhcpv6 == v1.dhcpv6
    &&& v2.prefix_groups@.len() == v1.sources@.len()
    &&& forall|i: int|
        0 <= i < v1.sources@.len() ==> group_of_source(
            #[trigger] v2.prefix_groups@[i],
            i as usize,
            v1.sources@[i],
        )
}

impl vstd::std_specs::convert::FromSpecImpl<LanIPv6Config> for LanIPv6ConfigV2 {
    open spec fn obeys_from_spec() -> bool {
        false
    }

    open spec fn from_spec(value: LanIPv6Config) -> Self {
        arbitrary()
    }
}

impl From<LanIPv6Config> for LanIPv6ConfigV2 {
    fn from(value: LanIPv6Config) -> (r: Self)
        ensures
            config_of_sources(r, value),
    {
        let mut prefix_groups: Vec<LanPrefixGroupConfig> = Vec::new();
        let n: usize = value.sources.len();
        for i in 0..n
            invariant
                n == value.sources@.len(),
                prefix_groups@.len() == i,
                forall|k: int|
                    0 <= k < i ==> group_of_source(
                        #[trigger] prefix_groups@[k],
                        k as usize,
                        value.sources@[k],
                    ),
        {
            prefix_groups.push(legacy_source_to_group(i, &value.sources[i]));
        }
        LanIPv6ConfigV2 {
            mode: value.mode,
            ad_interval: value.ad_interval,
            ra_flag: value.ra_flag,
            prefix_groups,
            dhcpv6: value.dhcpv6,
        }
    }
}

impl vstd::std_specs::convert::FromSpecImpl<LanIPv6ServiceConfig> for LanIPv6ServiceConfigV2 {
    open spec fn obeys_from_spec() -> bool {
        false
    }

    open spec fn from_spec(value: LanIPv6ServiceConfig) -> Self {
        arbitrary()
    }
}

impl From<LanIPv6ServiceConfig> for LanIPv6ServiceConfigV2 {
    fn from(value: LanIPv6ServiceConfig) -> (r: Self)
        ensures
            r.iface_name == value.iface_name,
            r.enable == value.enable,
            config_of_sources(r.config, value.config),
    {
        LanIPv6ServiceConfigV2 {
            iface_name: value.iface_name,
            enable: value.enable,
            config: LanIPv6ConfigV2::from(value.config),
        }
    }
}

proof fn lemma_sources_conflict_from(s: Seq<LanIPv6SourceConfig>, i: int, j: int)
    requires
        0 <= i < j,
    ensures
        sources_conflict_verdict(s, i, j) is Clean <==> forall|a: int, b: int|
            0 <= a < b < s.len() && (a > i || (a == i && b >= j)) && s[a].parent() == s[b].parent()
                ==> (#[trigger] source_pair_verdict(s[a].parent(), s[a], s[b])) is Clean,
    decreases s.len() - i, s.len() - j,
{
    if i < s.len() {
        if j >= s.len() {
            lemma_sources_conflict_from(s, i + 1, i + 2);
        } else {
            lemma_sources_conflict_from(s, i, j + 1);
            let first = source_pair_verdict(s[i].parent(), s[i], s[j]);
        }
    }
}

/// Sources are free of conflict exactly when no two of them under one parent
/// have blocks that overlap, an announcement and an assignment apart.
pub proof fn law_sources_apart(s: Seq<LanIPv6SourceConfig>)
    ensures
        sources_conflict_verdict(s, 0, 1) is Clean <==> forall|a: int, b: int|
            0 <= a < b < s.len() && s[a].parent() == s[b].parent() ==> (
            #[trigger] source_pair_verdict(s[a].parent(), s[a], s[b])) is Clean,
{
    lemma_sources_conflict_from(s, 0, 1);
}

/// The group made from a source takes the source's block in the modes in which
/// the source is served, and nothing in the others.
pub proof fn law_group_keeps_blocks(
    group: LanPrefixGroupConfig,
    index: usize,
    source: LanIPv6SourceConfig,
    mode: IPv6ServiceMode,
)
    requires
        group_of_source(group, index, source),
    ensures
        served_in(mode, source) ==> group.entries(mode, None).len() == 1
            && group.entries(mode, None)[0].start_index == source.index()
            && group.entries(mode, None)[0].end_index == source.index()
            && group.entries(mode, None)[0].pool_len == source.len(),
        !served_in(mode, source) ==> group.entries(mode, None).len() == 0,
{
}

/// Two sources under one parent conflict exactly where their blocks overlap
/// and they are not an announcement and an assignment; the index and length of
/// a block are those of the source, and single blocks have 64 bits.
pub proof fn law_conflicting_sources(
    a: LanIPv6SourceConfig,
    b: LanIPv6SourceConfig,
    text: Seq<char>,
)
    requires
        blocks_fit(a.index() as u64, a.len(), b.index() as u64, b.len()),
    ensures
        ({
            let announces = |s: LanIPv6SourceConfig| s is RaStatic || s is RaPd;
            let assigns = |s: LanIPv6SourceConfig| s is NaStatic || s is NaPd;
            let shared = (announces(a) && assigns(b)) || (assigns(a) && announces(b));
            let meet = blocks_meet(a.index() as u64, a.len(), b.index() as u64, b.len());
            &&& overlap_verdict(a, b, text) is Clean <==> shared || !meet
            &&& !shared && meet ==> overlap_verdict(a, b, text) == Verdict::Fault(text)
        }),
        !(a is PdStatic) && !(a is PdPd) ==> a.len() == 64,
        a matches LanIPv6SourceConfig::PdStatic { pool_len, .. } ==> a.len() == pool_len,
        a matches LanIPv6SourceConfig::PdPd { pool_len, .. } ==> a.len() == pool_len,
{
}

/// A source is right in itself exactly when a delegated range of a static
/// parent has blocks that are smaller than it, at most 128 bits long, and
/// holds the block; and one of a delegated parent has a length from 1 to 128.
pub proof fn law_accepted_source(s: LanIPv6SourceConfig)
    ensures
        s.verdict() is Clean <==> match s {
            LanIPv6SourceConfig::PdStatic { base_prefix_len, pool_index, pool_len, .. } => {
                &&& base_prefix_len < pool_len <= 128
                &&& pool_index < pow2((pool_len - base_prefix_len) as nat)
            },
            LanIPv6SourceConfig::PdPd { pool_len, .. } => 1 <= pool_len <= 128,
            _ => true,
        },
{
}

/// Announcements are served where hosts choose their addresses, assignments and
/// delegations where DHCPv6 runs, and all of them where both do.
pub proof fn law_served_sources(s: LanIPv6SourceConfig)
    ensures
        ({
            let announces = s is RaStatic || s is RaPd;
            &&& served_in(IPv6ServiceMode::Slaac, s) <==> announces
            &&& served_in(IPv6ServiceMode::Stateful, s) <==> !announces
            &&& served_in(IPv6ServiceMode::SlaacDhcpv6, s)
        }),
{
}

proof fn lemma_each_source_from(s: Seq<LanIPv6SourceConfig>, i: int)
    requires
        0 <= i,
    ensures
        each_source_verdict(s, i) is Clean <==> forall|k: int|
            i <= k < s.len() ==> (#[trigger] s[k]).verdict() is Clean,
    decreases s.len() - i,
{
    if i < s.len() {
        lemma_each_source_from(s, i + 1);
    }
}

proof fn lemma_ula_sources_from(s: Seq<LanIPv6SourceConfig>, i: int)
    requires
        0 <= i,
    ensures
        ula_sources_verdict(s, i) is Clean <==> forall|k: int|
            i <= k < s.len() ==> match #[trigger] s[k] {
                LanIPv6SourceConfig::RaStatic { base_prefix, .. } => ula(base_prefix),
                LanIPv6SourceConfig::RaPd { .. } => false,
                _ => true,
            },
    decreases s.len() - i,
{
    if i < s.len() {
        lemma_ula_sources_from(s, i + 1);
    }
}

/// Whether some source announces a prefix.
pub open spec fn some_announced(s: Seq<LanIPv6SourceConfig>) -> bool {
    exists|i: int| 0 <= i < s.len() && ((#[trigger] s[i]) is RaStatic || s[i] is RaPd)
}

/// Whether some source assigns addresses.
pub open spec fn some_assigned(s: Seq<LanIPv6SourceConfig>) -> bool {
    exists|i: int| 0 <= i < s.len() && ((#[trigger] s[i]) is NaStatic || s[i] is NaPd)
}

/// Whether some source delegates prefixes.
pub open spec fn some_delegated(s: Seq<LanIPv6SourceConfig>) -> bool {
    exists|i: int| 0 <= i < s.len() && ((#[trigger] s[i]) is PdStatic || s[i] is PdPd)
}

/// A configuration is accepted exactly when each source is right in itself, the
/// served ones do not conflict, and the mode allows it: where hosts choose
/// their addresses some source announces a prefix, and neither the managed
/// flag nor DHCPv6 is on; where addresses are assigned some source assigns
/// them, and where both are done some source announces a prefix and some other
/// one is there, every announced prefix being a static unique local one; in
/// both modes both flags and DHCPv6 are on, and its settings are right.
pub proof fn law_accepted_configs(c: LanIPv6Config)
    ensures
        ({
            let s = c.sources@;
            let served = c.ra_flag.managed_address_config && c.ra_flag.other_config && (
            c.dhcpv6 matches Some(server) && server.enable && server.verdict() is Clean);
            c.verdict() is Clean <==> {
                &&& forall|k: int| 0 <= k < s.len() ==> (#[trigger] s[k]).verdict() is Clean
                &&& sources_conflict_verdict(c.active(), 0, 1) is Clean
                &&& match c.mode {
                    IPv6ServiceMode::Slaac => some_announced(s)
                        && !c.ra_flag.managed_address_config && !(c.dhcpv6 matches Some(server)
                        && server.enable),
                    IPv6ServiceMode::Stateful => some_assigned(s) && served,
                    IPv6ServiceMode::SlaacDhcpv6 => some_announced(s) && served && (some_assigned(s)
                        || some_delegated(s)) && forall|k: int|
                        0 <= k < s.len() ==> match #[trigger] s[k] {
                            LanIPv6SourceConfig::RaStatic { base_prefix, .. } => ula(base_prefix),
                            LanIPv6SourceConfig::RaPd { .. } => false,
                            _ => true,
                        },
                }
            }
        }),
{
    let s = c.sources@;
    lemma_each_source_from(s, 0);
    lemma_ula_sources_from(s, 0);
    assert(any_of_kind(s, SourceServiceKind::Ra) == some_announced(s)) by {
        if any_of_kind(s, SourceServiceKind::Ra) {
            let i = choose|i: int|
                0 <= i < s.len() && (#[trigger] s[i]).kind() == SourceServiceKind::Ra;
            assert(s[i] is RaStatic || s[i] is RaPd);
        }
        if some_announced(s) {
            let i = choose|i: int| 0 <= i < s.len() && ((#[trigger] s[i]) is RaStatic || s[i] is RaPd);
            assert(s[i].kind() == SourceServiceKind::Ra);
        }
    }
    assert(any_of_kind(s, SourceServiceKind::Na) == some_assigned(s)) by {
        if any_of_kind(s, SourceServiceKind::Na) {
            let i = choose|i: int|
                0 <= i < s.len() && (#[trigger] s[i]).kind() == SourceServiceKind::Na;
            assert(s[i] is NaStatic || s[i] is NaPd);
        }
        if some_assigned(s) {
            let i = choose|i: int| 0 <= i < s.len() && ((#[trigger] s[i]) is NaStatic || s[i] is NaPd);
            assert(s[i].kind() == SourceServiceKind::Na);
        }
    }
    assert(any_of_kind(s, SourceServiceKind::IaPd) == some_delegated(s)) by {
        if any_of_kind(s, SourceServiceKind::IaPd) {
            let i = choose|i: int|
                0 <= i < s.len() && (#[trigger] s[i]).kind() == SourceServiceKind::IaPd;
            assert(s[i] is PdStatic || s[i] is PdPd);
        }
        if some_delegated(s) {
            let i = choose|i: int| 0 <= i < s.len() && ((#[trigger] s[i]) is PdStatic || s[i] is PdPd);
            assert(s[i].kind() == SourceServiceKind::IaPd);
        }
    }
}

proof fn lemma_cross_sources_from(
    new: Seq<LanIPv6SourceConfig>,
    iface: Seq<char>,
    other: Seq<LanIPv6SourceConfig>,
    other_iface: Seq<char>,
    i: int,
    j: int,
)
    requires
        0 <= i,
        0 <= j,
    ensures
        cross_sources_verdict(new, iface, other, other_iface, i, j) is Clean <==> forall|
            a: int,
            b: int,
        |
            0 <= a < new.len() && 0 <= b < other.len() && (a > i || (a == i && b >= j))
                && new[a].parent() == other[b].parent() ==> (#[trigger] overlap_verdict(
                new[a],
                other[b],
                cross_conflict_text(new[a], iface, other[b], other_iface),
            )) is Clean,
    decreases new.len() - i, other.len() - j,
{
    if i < new.len() {
        if j >= other.len() {
            lemma_cross_sources_from(new, iface, other, other_iface, i + 1, 0);
        } else {
            lemma_cross_sources_from(new, iface, other, other_iface, i, j + 1);
            let first = overlap_verdict(
                new[i],
                other[j],
                cross_conflict_text(new[i], iface, other[j], other_iface),
            );
        }
    }
}

/// The served sources of two interfaces are free of conflict exactly when no
/// two of them under one parent have blocks that overlap, an announcement and
/// an assignment apart.
pub proof fn law_interfaces_apart(
    new: Seq<LanIPv6SourceConfig>,
    iface: Seq<char>,
    other: Seq<LanIPv6SourceConfig>,
    other_iface: Seq<char>,
)
    ensures
        cross_sources_verdict(new, iface, other, other_iface, 0, 0) is Clean <==> forall|
            a: int,
            b: int,
        |
            0 <= a < new.len() && 0 <= b < other.len() && new[a].parent() == other[b].parent() ==> (
            #[trigger] overlap_verdict(
                new[a],
                other[b],
                cross_conflict_text(new[a], iface, other[b], other_iface),
            )) is Clean,
{
    lemma_cross_sources_from(new, iface, other, other_iface, 0, 0);
}

/// A configuration is free of conflict with those of other interfaces exactly
/// when it is with each one that is enabled; its own interface is left out.
pub proof fn law_each_other_interface(
    new_config: LanIPv6ServiceConfig,
    others: Seq<LanIPv6ServiceConfig>,
    k: int,
)
    requires
        0 <= k,
    ensures
        cross_interface_verdict(new_config, others, k) is Clean <==> forall|i: int|
            k <= i < others.len() && (#[trigger] others[i]).enable && others[i].iface_name@
                != new_config.iface_name@ ==> cross_sources_verdict(
                new_config.config.active(),
                new_config.iface_name@,
                others[i].config.active(),
                others[i].iface_name@,
                0,
                0,
            ) is Clean,
    decreases others.len() - k,
{
    if k < others.len() {
        law_each_other_interface(new_config, others, k + 1);
    }
}

/// A group made from a source has the source's service alone, with its block
/// and its times; its parent is the source's, with the length that the source
/// names or else 60 bits.
pub proof fn law_group_made_from_a_source(
    group: LanPrefixGroupConfig,
    index: usize,
    source: LanIPv6SourceConfig,
)
    requires
        group_of_source(group, index, source),
    ensures
        match source {
            LanIPv6SourceConfig::RaStatic {
                base_prefix,
                pool_index,
                preferred_lifetime,
                valid_lifetime,
                ..
            } => {
                &&& group.parent == (PrefixParentSource::Static {
                    base_prefix,
                    parent_prefix_len: 60,
                })
                &&& group.ra == Some(
                    RaPrefixConfig { pool_index, preferred_lifetime, valid_lifetime },
                )
                &&& group.na is None && group.pd is None
            },
            LanIPv6SourceConfig::RaPd {
                depend_iface,
                pool_index,
                preferred_lifetime,
                valid_lifetime,
                ..
            } => {
                &&& group.parent == (PrefixParentSource::Pd {
                    depend_iface,
                    planned_parent_prefix_len: 60,
                })
                &&& group.ra == Some(
                    RaPrefixConfig { pool_index, preferred_lifetime, valid_lifetime },
                )
                &&& group.na is None && group.pd is None
            },
            LanIPv6SourceConfig::NaStatic { base_prefix, pool_index, .. } => {
                &&& group.parent == (PrefixParentSource::Static {
                    base_prefix,
                    parent_prefix_len: 60,
                })
                &&& group.na == Some(NaPrefixConfig { pool_index })
                &&& group.ra is None && group.pd is None
            },
            LanIPv6SourceConfig::NaPd { depend_iface, pool_index, .. } => {
                &&& group.parent == (PrefixParentSource::Pd {
                    depend_iface,
                    planned_parent_prefix_len: 60,
                })
                &&& group.na == Some(NaPrefixConfig { pool_index })
                &&& group.ra is None && group.pd is None
            },
            LanIPv6SourceConfig::PdStatic { base_prefix, base_prefix_len, pool_index, pool_len } => {
                &&& group.parent == (PrefixParentSource::Static {
                    base_prefix,
                    parent_prefix_len: base_prefix_len,
                })
                &&& group.pd == Some(
                    PdPrefixRangeConfig {
                        pool_len,
                        start_index: pool_index,
                        end_index: pool_index,
                    },
                )
                &&& group.ra is None && group.na is None
            },
            LanIPv6SourceConfig::PdPd {
                depend_iface,
                max_source_prefix_len,
                pool_index,
                pool_len,
            } => {
                &&& group.parent == (PrefixParentSource::Pd {
                    depend_iface,
                    planned_parent_prefix_len: max_source_prefix_len,
                })
                &&& group.pd == Some(
                    PdPrefixRangeConfig {
                        pool_len,
                        start_index: pool_index,
                        end_index: pool_index,
                    },
                )
                &&& group.ra is None && group.na is None
            },
        },
{
}

} // verus!

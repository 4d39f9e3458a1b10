//! Prefix groups: what a LAN interface takes from one parent prefix, and the
//! rules that keep what is taken apart.
use vstd::arithmetic::power2::{lemma_pow2_pos, lemma_pow2_strictly_increases, pow2};
use vstd::bits::lemma_u64_shl_is_mul;
use vstd::prelude::*;
use crate::error::{invalid, invalid_because, verdict_of, ServiceConfigError, Verdict};
use crate::lan_ipv6::blocks::{blocks_fit, blocks_meet, blocks_overlap, range_blocks_overlap};
use crate::lan_ipv6::config::{IPv6ServiceMode, LanIPv6ServiceConfigV2, PrefixGroupServiceKind};
use crate::lan_ipv6::subnet::{normalize_ipv6_prefix, spec_network};
use crate::name_map::NameMap;
use crate::net::Ipv6Addr;
use crate::text::{decimal, decimal_text, same_text, trim, trimmed};

verus! {

/// A prefix that an upstream router has delegated.
#[derive(Debug, Clone, Copy, PartialEq, Eq, Structural)]
pub struct LDIAPrefix {
    pub preferred_lifetime: u32,
    pub valid_lifetime: u32,
    pub prefix_len: u8,
    pub prefix_ip: Ipv6Addr,
}

/// What is known of the prefix delegated to each interface.
pub type PrefixInfoMap = NameMap<Option<LDIAPrefix>>;

/// The parent prefix of a group.
#[derive(Debug, PartialEq, Eq)]
pub enum PrefixParentSource {
    Static { base_prefix: Ipv6Addr, parent_prefix_len: u8 },
    Pd { depend_iface: String, planned_parent_prefix_len: u8 },
}

#[derive(Debug, Clone, Copy, PartialEq, Eq, Structural)]
pub struct RaPrefixConfig {
    pub pool_index: u32,
    pub preferred_lifetime: u32,
    pub valid_lifetime: u32,
}

#[derive(Debug, Clone, Copy, PartialEq, Eq, Structural)]
pub struct NaPrefixConfig {
    pub pool_index: u32,
}

#[derive(Debug, Clone, Copy, PartialEq, Eq, Structural)]
pub struct PdPrefixRangeConfig {
    pub pool_len: u8,
    pub start_index: u32,
    pub end_index: u32,
}

/// What an interface takes from one parent prefix.
#[derive(Debug, PartialEq, Eq)]
pub struct LanPrefixGroupConfig {
    pub group_id: String,
    pub parent: PrefixParentSource,
    pub ra: Option<RaPrefixConfig>,
    pub na: Option<NaPrefixConfig>,
    pub pd: Option<PdPrefixRangeConfig>,
}

/// A parent prefix as it is configured.
#[derive(Debug, PartialEq, Eq)]
pub enum PrefixGroupParentKey {
    Static(Ipv6Addr, u8),
    Pd(String, u8),
}

/// A parent prefix as far as it is known.
#[derive(Debug, PartialEq, Eq)]
pub enum ExpandedParentKey {
    Static(Ipv6Addr, u8),
    PdActual(Ipv6Addr, u8),
    PdFallback(String, u8),
}

/// A parent prefix as far as it is known, with the interface name as text.
pub enum ParentView {
    Static(Ipv6Addr, u8),
    PdActual(Ipv6Addr, u8),
    PdFallback(Seq<char>, u8),
}

/// One service's share of a parent prefix.
#[derive(Debug)]
pub struct ExpandedPrefixEntry {
    pub parent: ExpandedParentKey,
    pub parent_prefix_len: u8,
    pub service_kind: PrefixGroupServiceKind,
    pub start_index: u32,
    pub end_index: u32,
    pub pool_len: u8,
}

/// One service's share of a parent prefix, with the parent by its view.
pub struct EntryView {
    pub parent: ParentView,
    pub parent_prefix_len: u8,
    pub service_kind: PrefixGroupServiceKind,
    pub start_index: u32,
    pub end_index: u32,
    pub pool_len: u8,
}

impl View for ExpandedParentKey {
    type V = ParentView;

    open spec fn view(&self) -> ParentView {
        match *self {
            ExpandedParentKey::Static(ip, len) => ParentView::Static(ip, len),
            ExpandedParentKey::PdActual(ip, len) => ParentView::PdActual(ip, len),
            ExpandedParentKey::PdFallback(iface, len) => ParentView::PdFallback(iface@, len),
        }
    }
}

impl View for ExpandedPrefixEntry {
    type V = EntryView;

    open spec fn view(&self) -> EntryView {
        EntryView {
            parent: self.parent@,
            parent_prefix_len: self.parent_prefix_len,
            service_kind: self.service_kind,
            start_index: self.start_index,
            end_index: self.end_index,
            pool_len: self.pool_len,
        }
    }
}

/// The views of a list of entries.
pub open spec fn entry_views(v: Seq<ExpandedPrefixEntry>) -> Seq<EntryView> {
    v.map_values(|e: ExpandedPrefixEntry| e@)
}

impl Clone for PrefixParentSource {
    fn clone(&self) -> (r: Self)
        ensures
            r == *self,
    {
        match self {
            PrefixParentSource::Static { base_prefix, parent_prefix_len } => {
                PrefixParentSource::Static {
                    base_prefix: *base_prefix,
                    parent_prefix_len: *parent_prefix_len,
                }
            },
            PrefixParentSource::Pd { depend_iface, planned_parent_prefix_len } => {
                PrefixParentSource::Pd {
                    depend_iface: depend_iface.clone(),
                    planned_parent_prefix_len: *planned_parent_prefix_len,
                }
            },
        }
    }
}

impl Clone for LanPrefixGroupConfig {
    fn clone(&self) -> (r: Self)
        ensures
            r == *self,
    {
        LanPrefixGroupConfig {
            group_id: self.group_id.clone(),
            parent: self.parent.clone(),
            ra: self.ra,
            na: self.na,
            pd: self.pd,
        }
    }
}

impl Clone for ExpandedParentKey {
    fn clone(&self) -> (r: Self)
        ensures
            r == *self,
    {
        match self {
            ExpandedParentKey::Static(ip, len) => ExpandedParentKey::Static(*ip, *len),
            ExpandedParentKey::PdActual(ip, len) => ExpandedParentKey::PdActual(*ip, *len),
            ExpandedParentKey::PdFallback(iface, len) => ExpandedParentKey::PdFallback(
                iface.clone(),
                *len,
            ),
        }
    }
}

impl ExpandedParentKey {
    /// Whether both are the same parent.
    pub fn same_parent(&self, other: &Self) -> (r: bool)
        ensures
            r == (self@ == other@),
    {
        match (self, other) {
            (ExpandedParentKey::Static(a, n), ExpandedParentKey::Static(b, m)) => *a == *b && *n
                == *m,
            (ExpandedParentKey::PdActual(a, n), ExpandedParentKey::PdActual(b, m)) => *a == *b && *n
                == *m,
            (ExpandedParentKey::PdFallback(a, n), ExpandedParentKey::PdFallback(b, m)) => *n == *m
                && same_text(a, b),
            _ => false,
        }
    }
}

/// The prefix known to be delegated to an interface.
pub open spec fn known_prefix(infos: Option<&PrefixInfoMap>, iface: Seq<char>) -> Option<
    LDIAPrefix,
> {
    if infos is Some && infos->0@.contains_key(iface) {
        infos->0@[iface]
    } else {
        None
    }
}

fn find_known_prefix(infos: Option<&PrefixInfoMap>, iface: &str) -> (r: Option<LDIAPrefix>)
    ensures
        r == known_prefix(infos, iface@),
{
    match infos {
        Some(map) => match map.get(iface) {
            Some(known) => *known,
            None => None,
        },
        None => None,
    }
}

impl PrefixParentSource {
    pub open spec fn is_pd(self) -> bool {
        self is Pd
    }

    /// The configured length of the parent prefix.
    pub open spec fn configured_len(self) -> u8 {
        match self {
            PrefixParentSource::Static { parent_prefix_len, .. } => parent_prefix_len,
            PrefixParentSource::Pd { planned_parent_prefix_len, .. } => planned_parent_prefix_len,
        }
    }

    /// The length of the parent prefix: that of the delegated prefix where
    /// one is known, else the configured one.
    pub open spec fn resolved_len(self, infos: Option<&PrefixInfoMap>) -> u8 {
        match self {
            PrefixParentSource::Static { parent_prefix_len, .. } => parent_prefix_len,
            PrefixParentSource::Pd { depend_iface, planned_parent_prefix_len } => match known_prefix(
                infos,
                depend_iface@,
            ) {
                Some(prefix) => prefix.prefix_len,
                None => planned_parent_prefix_len,
            },
        }
    }

    /// The parent prefix as far as it is known: the delegated prefix with the
    /// bits behind it cleared where one is known, else what is configured.
    pub open spec fn expanded(self, infos: Option<&PrefixInfoMap>) -> ParentView {
        match self {
            PrefixParentSource::Static { base_prefix, parent_prefix_len } => ParentView::Static(
                base_prefix,
                parent_prefix_len,
            ),
            PrefixParentSource::Pd { depend_iface, planned_parent_prefix_len } => match known_prefix(
                infos,
                depend_iface@,
            ) {
                Some(prefix) => ParentView::PdActual(
                    if prefix.prefix_len <= 128 {
                        spec_network(prefix.prefix_ip, prefix.prefix_len)
                    } else {
                        prefix.prefix_ip
                    },
                    prefix.prefix_len,
                ),
                None => ParentView::PdFallback(depend_iface@, planned_parent_prefix_len),
            },
        }
    }

    pub fn parent_key(&self) -> (r: PrefixGroupParentKey)
        ensures
            r == (match *self {
                PrefixParentSource::Static { base_prefix, parent_prefix_len } => {
                    PrefixGroupParentKey::Static(base_prefix, parent_prefix_len)
                },
                PrefixParentSource::Pd { depend_iface, planned_parent_prefix_len } => {
                    PrefixGroupParentKey::Pd(depend_iface, planned_parent_prefix_len)
                },
            }),
    {
        match self {
            PrefixParentSource::Static { base_prefix, parent_prefix_len } => {
                PrefixGroupParentKey::Static(*base_prefix, *parent_prefix_len)
            },
            PrefixParentSource::Pd { depend_iface, planned_parent_prefix_len } => {
                PrefixGroupParentKey::Pd(depend_iface.clone(), *planned_parent_prefix_len)
            },
        }
    }

    pub fn parent_prefix_len(&self) -> (r: u8)
        ensures
            r == self.configured_len(),
    {
        match self {
            PrefixParentSource::Static { parent_prefix_len, .. } => *parent_prefix_len,
            PrefixParentSource::Pd { planned_parent_prefix_len, .. } => *planned_parent_prefix_len,
        }
    }

    pub fn resolved_parent_prefix_len(&self, prefix_infos: Option<&PrefixInfoMap>) -> (r: u8)
        ensures
            r == self.resolved_len(prefix_infos),
    {
        match self {
            PrefixParentSource::Static { parent_prefix_len, .. } => *parent_prefix_len,
            PrefixParentSource::Pd { depend_iface, planned_parent_prefix_len } => {
                match find_known_prefix(prefix_infos, depend_iface) {
                    Some(prefix) => prefix.prefix_len,
                    None => *planned_parent_prefix_len,
                }
            },
        }
    }

    pub fn expanded_parent_key(&self, prefix_infos: Option<&PrefixInfoMap>) -> (r:
        ExpandedParentKey)
        ensures
            r@ == self.expanded(prefix_infos),
    {
        match self {
            PrefixParentSource::Static { base_prefix, parent_prefix_len } => {
                ExpandedParentKey::Static(*base_prefix, *parent_prefix_len)
            },
            PrefixParentSource::Pd { depend_iface, planned_parent_prefix_len } => {
                match find_known_prefix(prefix_infos, depend_iface) {
                    Some(prefix) => ExpandedParentKey::PdActual(
                        normalize_ipv6_prefix(prefix.prefix_ip, prefix.prefix_len),
                        prefix.prefix_len,
                    ),
                    None => ExpandedParentKey::PdFallback(
                        depend_iface.clone(),
                        *planned_parent_prefix_len,
                    ),
                }
            },
        }
    }
}

/// Whether an address is unique local, that is under `fc00::/7`.
pub open spec fn ula(addr: Ipv6Addr) -> bool {
    0xfc <= addr.bits / 0x100_0000_0000_0000_0000_0000_0000_0000 <= 0xfd
}

pub fn is_ula(addr: Ipv6Addr) -> (r: bool)
    ensures
        r == ula(addr),
{
    let first_byte: u128 = addr.bits / 0x100_0000_0000_0000_0000_0000_0000_0000;
    first_byte == 0xfc || first_byte == 0xfd
}

impl ExpandedPrefixEntry {
    pub fn is_dynamic(&self) -> (r: bool)
        ensures
            r == !(self.parent is Static),
    {
        match self.parent {
            ExpandedParentKey::Static(_, _) => false,
            _ => true,
        }
    }

    pub fn effective_index_range(&self, _is_dynamic: bool) -> (r: (u64, u64))
        ensures
            r.0 == self.start_index,
            r.1 == self.end_index,
    {
        (self.start_index as u64, self.end_index as u64)
    }
}

/// Whether blocks `start` to `end` of length `target_len` exist in a parent of
/// length `parent_len`.
pub open spec fn within_capacity(
    start_index: u32,
    end_index: u32,
    target_len: u8,
    parent_len: u8,
) -> bool {
    &&& parent_len < target_len
    &&& start_index <= end_index
    &&& end_index < pow2((target_len - parent_len) as nat)
}

/// How many blocks of the difference in length a parent has, as far as 64
/// bits hold it.
pub fn max_blocks(bits: u8) -> (r: u64)
    ensures
        bits < 64 ==> r == pow2(bits as nat),
        bits >= 64 ==> r == u64::MAX && r < pow2(bits as nat),
{
    proof {
        vstd::arithmetic::power2::lemma2_to64();
    }
    if bits < 64 {
        let d: u64 = bits as u64;
        proof {
            lemma_pow2_pos(d as nat);
            lemma_pow2_strictly_increases(d as nat, 64);
            lemma_u64_shl_is_mul(1, d);
        }
        1u64 << d
    } else {
        proof {
            if bits > 64 {
                lemma_pow2_strictly_increases(64, bits as nat);
            }
        }
        u64::MAX
    }
}

/// The first thing wrong with a single block of length 64 that a service takes.
pub open spec fn single_block_verdict(
    name: Seq<char>,
    is_pd_parent: bool,
    pool_index: u32,
    parent_len: u8,
) -> Verdict {
    if is_pd_parent && pool_index == 0 {
        Verdict::Fault(
            name + " pool_index ("@ + decimal(pool_index as nat)
                + ") must be >= 1 when parent is PD-derived (subnet 0 is reserved for WAN)"@,
        )
    } else if parent_len >= 64 {
        Verdict::Fault(
            name + " requires parent_prefix_len ("@ + decimal(parent_len as nat)
                + ") to be less than 64"@,
        )
    } else if !within_capacity(pool_index, pool_index, 64, parent_len) {
        Verdict::Fault(
            name + " pool_index ("@ + decimal(pool_index as nat) + ") exceeds available capacity"@,
        )
    } else {
        Verdict::Clean
    }
}

impl LanPrefixGroupConfig {
    /// The first thing wrong with the group's name and parent length.
    pub open spec fn header_verdict(self) -> Verdict {
        if trimmed(self.group_id@).len() == 0 {
            Verdict::Fault("Prefix group id must not be empty"@)
        } else if self.parent.configured_len() == 0 || self.parent.configured_len() > 127 {
            Verdict::Fault(
                (if self.parent.is_pd() {
                    "PD planned_parent_prefix_len ("@
                } else {
                    "Static parent_prefix_len ("@
                }) + decimal(self.parent.configured_len() as nat) + ") must be between 1 and 127"@,
            )
        } else {
            Verdict::Clean
        }
    }

    /// The first thing wrong with the delegated range taken by itself.
    pub open spec fn pd_shape_verdict(self) -> Verdict {
        match self.pd {
            Some(pd) => if pd.pool_len == 0 || pd.pool_len > 128 {
                Verdict::Fault(
                    "PD pool_len ("@ + decimal(pd.pool_len as nat) + ") must be between 1 and 128"@,
                )
            } else if pd.end_index < pd.start_index {
                Verdict::Fault(
                    "PD range end_index ("@ + decimal(pd.end_index as nat)
                        + ") must be >= start_index ("@ + decimal(pd.start_index as nat) + ")"@,
                )
            } else {
                Verdict::Clean
            },
            None => Verdict::Clean,
        }
    }

    /// The first thing wrong with the delegated range inside its parent.
    pub open spec fn pd_range_verdict(self, parent_len: u8) -> Verdict {
        match self.pd {
            Some(pd) => if self.parent.is_pd() && pd.start_index == 0 {
                Verdict::Fault(
                    "IA_PD start_index ("@ + decimal(pd.start_index as nat)
                        + ") must be >= 1 when parent is PD-derived (subnet 0 is reserved for WAN)"@,
                )
            } else if pd.pool_len <= parent_len {
                Verdict::Fault(
                    "IA_PD pool_len ("@ + decimal(pd.pool_len as nat)
                        + ") must be greater than parent_prefix_len ("@ + decimal(parent_len as nat)
                        + ")"@,
                )
            } else if !within_capacity(pd.start_index, pd.end_index, pd.pool_len, parent_len) {
                Verdict::Fault(
                    "IA_PD range "@ + decimal(pd.start_index as nat) + "-"@ + decimal(
                        pd.end_index as nat,
                    ) + " exceeds available capacity for pool_len /"@ + decimal(pd.pool_len as nat),
                )
            } else {
                Verdict::Clean
            },
            None => Verdict::Clean,
        }
    }

    /// The first thing wrong with the group, given what is known of delegated
    /// prefixes.
    pub open spec fn verdict(self, infos: Option<&PrefixInfoMap>) -> Verdict {
        let parent_len = self.parent.resolved_len(infos);
        let is_pd = self.parent.is_pd();
        let ra = match self.ra {
            Some(ra) => single_block_verdict("RA"@, is_pd, ra.pool_index, parent_len),
            None => Verdict::Clean,
        };
        let na = match self.na {
            Some(na) => single_block_verdict("IA_NA"@, is_pd, na.pool_index, parent_len),
            None => Verdict::Clean,
        };
        self.header_verdict().or_else(self.pd_shape_verdict()).or_else(ra).or_else(na).or_else(
            self.pd_range_verdict(parent_len),
        )
    }

    pub fn validate(&self) -> (r: Result<(), ServiceConfigError>)
        ensures
            verdict_of(r) == self.verdict(None),
    {
        self.validate_with_prefix_infos(None)
    }

    fn validate_header(&self) -> (r: Result<(), ServiceConfigError>)
        ensures
            verdict_of(r) == self.header_verdict(),
    {
        let name = trim(&self.group_id);
        if name.as_str().is_empty() {
            return invalid_because("Prefix group id must not be empty");
        }
        let len: u8 = self.parent.parent_prefix_len();
        if len == 0 || len > 127 {
            let what = match self.parent {
                PrefixParentSource::Static { .. } => "Static parent_prefix_len (",
                PrefixParentSource::Pd { .. } => "PD planned_parent_prefix_len (",
            };
            return invalid(
                what.to_owned().concat(&decimal_text(len as u128)).concat(
                    ") must be between 1 and 127",
                ),
            );
        }
        Ok(())
    }

    fn validate_pd_shape(&self) -> (r: Result<(), ServiceConfigError>)
        ensures
            verdict_of(r) == self.pd_shape_verdict(),
    {
        if let Some(pd) = &self.pd {
            if pd.pool_len == 0 || pd.pool_len > 128 {
                return invalid(
                    "PD pool_len (".to_owned().concat(&decimal_text(pd.pool_len as u128)).concat(
                        ") must be between 1 and 128",
                    ),
                );
            }
            if pd.end_index < pd.start_index {
                return invalid(
                    "PD range end_index (".to_owned().concat(
                        &decimal_text(pd.end_index as u128),
                    ).concat(") must be >= start_index (").concat(
                        &decimal_text(pd.start_index as u128),
                    ).concat(")"),
                );
            }
        }
        Ok(())
    }

    fn validate_pd_range(&self, parent_len: u8) -> (r: Result<(), ServiceConfigError>)
        ensures
            verdict_of(r) == self.pd_range_verdict(parent_len),
    {
        if let Some(pd) = &self.pd {
            let is_pd_parent: bool = match self.parent {
                PrefixParentSource::Pd { .. } => true,
                _ => false,
            };
            if is_pd_parent && pd.start_index == 0 {
                return invalid(
                    "IA_PD start_index (".to_owned().concat(
                        &decimal_text(pd.start_index as u128),
                    ).concat(
                        ") must be >= 1 when parent is PD-derived (subnet 0 is reserved for WAN)",
                    ),
                );
            }
            if pd.pool_len <= parent_len {
                return invalid(
                    "IA_PD pool_len (".to_owned().concat(
                        &decimal_text(pd.pool_len as u128),
                    ).concat(") must be greater than parent_prefix_len (").concat(
                        &decimal_text(parent_len as u128),
                    ).concat(")"),
                );
            }
            if !group_has_capacity(pd.start_index, pd.end_index, pd.pool_len, parent_len) {
                return invalid(
                    "IA_PD range ".to_owned().concat(&decimal_text(pd.start_index as u128)).concat(
                        "-",
                    ).concat(&decimal_text(pd.end_index as u128)).concat(
                        " exceeds available capacity for pool_len /",
                    ).concat(&decimal_text(pd.pool_len as u128)),
                );
            }
        }
        Ok(())
    }

    pub fn validate_with_prefix_infos(&self, prefix_infos: Option<&PrefixInfoMap>) -> (r: Result<
        (),
        ServiceConfigError,
    >)
        ensures
            verdict_of(r) == self.verdict(prefix_infos),
    {
        let header = self.validate_header();
        if header.is_err() {
            return header;
        }
        let shape = self.validate_pd_shape();
        if shape.is_err() {
            return shape;
        }
        let parent_len: u8 = self.parent.resolved_parent_prefix_len(prefix_infos);
        let is_pd_parent: bool = match self.parent {
            PrefixParentSource::Pd { .. } => true,
            _ => false,
        };
        if let Some(ra) = &self.ra {
            let checked = validate_single_block("RA", is_pd_parent, ra.pool_index, parent_len);
            if checked.is_err() {
                return checked;
            }
        }
        if let Some(na) = &self.na {
            let checked = validate_single_block("IA_NA", is_pd_parent, na.pool_index, parent_len);
            if checked.is_err() {
                return checked;
            }
        }
        self.validate_pd_range(parent_len)
    }

    /// The group's share for each service that runs in the given mode.
    pub open spec fn entries(self, mode: IPv6ServiceMode, infos: Option<&PrefixInfoMap>) -> Seq<
        EntryView,
    > {
        let parent = self.parent.expanded(infos);
        let parent_prefix_len = self.parent.resolved_len(infos);
        let ra = if self.ra is Some && !(mode is Stateful) {
            seq![
                EntryView {
                    parent,
                    parent_prefix_len,
                    service_kind: PrefixGroupServiceKind::Ra,
                    start_index: self.ra->0.pool_index,
                    end_index: self.ra->0.pool_index,
                    pool_len: 64,
                },
            ]
        } else {
            seq![]
        };
        let na = if self.na is Some && !(mode is Slaac) {
            seq![
                EntryView {
                    parent,
                    parent_prefix_len,
                    service_kind: PrefixGroupServiceKind::Na,
                    start_index: self.na->0.pool_index,
                    end_index: self.na->0.pool_index,
                    pool_len: 64,
                },
            ]
        } else {
            seq![]
        };
        let pd = if self.pd is Some && !(mode is Slaac) {
            seq![
                EntryView {
                    parent,
                    parent_prefix_len,
                    service_kind: PrefixGroupServiceKind::IaPd,
                    start_index: self.pd->0.start_index,
                    end_index: self.pd->0.end_index,
                    pool_len: self.pd->0.pool_len,
                },
            ]
        } else {
            seq![]
        };
        ra + na + pd
    }

    pub fn active_entries(&self, mode: IPv6ServiceMode) -> (r: Vec<ExpandedPrefixEntry>)
        ensures
            entry_views(r@) == self.entries(mode, None),
    {
        self.active_entries_with_prefix_infos(mode, None)
    }

    pub fn active_entries_with_prefix_infos(
        &self,
        mode: IPv6ServiceMode,
        prefix_infos: Option<&PrefixInfoMap>,
    ) -> (r: Vec<ExpandedPrefixEntry>)
        ensures
            entry_views(r@) == self.entries(mode, prefix_infos),
    {
        let mut result: Vec<ExpandedPrefixEntry> = Vec::new();
        let parent = self.parent.expanded_parent_key(prefix_infos);
        let parent_prefix_len: u8 = self.parent.resolved_parent_prefix_len(prefix_infos);
        let include_ra: bool = match mode {
            IPv6ServiceMode::Slaac | IPv6ServiceMode::SlaacDhcpv6 => true,
            IPv6ServiceMode::Stateful => false,
        };
        let include_dhcp: bool = match mode {
            IPv6ServiceMode::Stateful | IPv6ServiceMode::SlaacDhcpv6 => true,
            IPv6ServiceMode::Slaac => false,
        };
        if include_ra {
            if let Some(ra) = &self.ra {
                result.push(
                    ExpandedPrefixEntry {
                        parent: parent.clone(),
                        parent_prefix_len,
                        service_kind: PrefixGroupServiceKind::Ra,
                        start_index: ra.pool_index,
                        end_index: ra.pool_index,
                        pool_len: 64,
                    },
                );
            }
        }
        if include_dhcp {
            if let Some(na) = &self.na {
                result.push(
                    ExpandedPrefixEntry {
                        parent: parent.clone(),
                        parent_prefix_len,
                        service_kind: PrefixGroupServiceKind::Na,
                        start_index: na.pool_index,
                        end_index: na.pool_index,
                        pool_len: 64,
                    },
                );
            }
            if let Some(pd) = &self.pd {
                result.push(
                    ExpandedPrefixEntry {
                        parent,
                        parent_prefix_len,
                        service_kind: PrefixGroupServiceKind::IaPd,
                        start_index: pd.start_index,
                        end_index: pd.end_index,
                        pool_len: pd.pool_len,
                    },
                );
            }
        }
        assert(entry_views(result@) =~= self.entries(mode, prefix_infos));
        result
    }
}

fn group_has_capacity(start_index: u32, end_index: u32, target_len: u8, parent_len: u8) -> (r: bool)
    ensures
        r == within_capacity(start_index, end_index, target_len, parent_len),
{
    if target_len <= parent_len {
        return false;
    }
    (end_index as u64) < max_blocks(target_len - parent_len) && start_index <= end_index
}

fn validate_single_block(
    name: &str,
    is_pd_parent: bool,
    pool_index: u32,
    parent_len: u8,
) -> (r: Result<(), ServiceConfigError>)
    ensures
        verdict_of(r) == single_block_verdict(name@, is_pd_parent, pool_index, parent_len),
{
    if is_pd_parent && pool_index == 0 {
        return invalid(
            name.to_owned().concat(" pool_index (").concat(
                &decimal_text(pool_index as u128),
            ).concat(") must be >= 1 when parent is PD-derived (subnet 0 is reserved for WAN)"),
        );
    }
    if 64 <= parent_len {
        return invalid(
            name.to_owned().concat(" requires parent_prefix_len (").concat(
                &decimal_text(parent_len as u128),
            ).concat(") to be less than 64"),
        );
    }
    if !group_has_capacity(pool_index, pool_index, 64, parent_len) {
        return invalid(
            name.to_owned().concat(" pool_index (").concat(
                &decimal_text(pool_index as u128),
            ).concat(") exceeds available capacity"),
        );
    }
    Ok(())
}

/// Whether some block of the range `start..=end` overlaps a single block.
pub open spec fn range_meets(start: u64, end: u64, len: u8, idx: u64, idx_len: u8) -> bool {
    exists|i: u64| start <= i <= end && #[trigger] blocks_meet(i, len, idx, idx_len)
}

/// Whether comparing the blocks of the range one after the other with a
/// single block leaves 64-bit numbers before an overlap is found.
pub open spec fn range_overflows(start: u64, end: u64, len: u8, idx: u64, idx_len: u8) -> bool {
    exists|i: u64|
        start <= i <= end && !(#[trigger] blocks_fit(i, len, idx, idx_len)) && (forall|k: u64|
            start <= k < i ==> !(#[trigger] blocks_meet(k, len, idx, idx_len)))
}

pub open spec fn range_verdict(start: u64, end: u64, len: u8, idx: u64, idx_len: u8) -> Verdict {
    if range_overflows(start, end, len, idx, idx_len) {
        Verdict::Overflow
    } else if range_meets(start, end, len, idx, idx_len) {
        Verdict::Fault("Prefix group results conflict under the same parent prefix"@)
    } else {
        Verdict::Clean
    }
}

/// Whether one of two services announces addresses and the other assigns them.
pub open spec fn ra_and_na(a: PrefixGroupServiceKind, b: PrefixGroupServiceKind) -> bool {
    (a is Ra && b is Na) || (a is Na && b is Ra)
}

/// What comes of comparing two entries under one parent.
pub open spec fn pair_verdict(a: EntryView, b: EntryView, allow_ra_na_share: bool) -> Verdict {
    if allow_ra_na_share && ra_and_na(a.service_kind, b.service_kind) {
        Verdict::Clean
    } else if a.service_kind is IaPd && b.service_kind is IaPd {
        if a.start_index <= b.end_index && b.start_index <= a.end_index {
            Verdict::Fault("IA_PD ranges conflict under the same parent prefix"@)
        } else {
            Verdict::Clean
        }
    } else if a.service_kind is IaPd {
        range_verdict(
            a.start_index as u64,
            a.end_index as u64,
            a.pool_len,
            b.start_index as u64,
            b.pool_len,
        )
    } else if b.service_kind is IaPd {
        range_verdict(
            b.start_index as u64,
            b.end_index as u64,
            b.pool_len,
            a.start_index as u64,
            a.pool_len,
        )
    } else {
        range_verdict(
            a.start_index as u64,
            a.start_index as u64,
            a.pool_len,
            b.start_index as u64,
            b.pool_len,
        )
    }
}

/// Compares the blocks of a range one after the other with a single block.
fn validate_range(parent_len: u8, start: u64, end: u64, len: u8, idx: u64, idx_len: u8) -> (r:
    Result<(), ServiceConfigError>)
    requires
        end < u64::MAX,
        !(range_verdict(start, end, len, idx, idx_len) is Overflow),
    ensures
        verdict_of(r) == range_verdict(start, end, len, idx, idx_len),
{
    let mut i: u64 = start;
    while i <= end
        invariant
            start <= i,
            i <= end + 1 || i == start,
            end < u64::MAX,
            !range_overflows(start, end, len, idx, idx_len),
            forall|k: u64| start <= k < i ==> !(#[trigger] blocks_meet(k, len, idx, idx_len)),
        decreases end + 1 - i,
    {
        assert(blocks_fit(i, len, idx, idx_len));
        if blocks_overlap(parent_len, i, len, idx, idx_len) {
            return invalid_because("Prefix group results conflict under the same parent prefix");
        }
        i += 1;
    }
    Ok(())
}

/// Compares two entries under one parent.
pub fn validate_expanded_pair(
    a: &ExpandedPrefixEntry,
    b: &ExpandedPrefixEntry,
    parent_len: u8,
    allow_ra_na_share: bool,
) -> (r: Result<(), ServiceConfigError>)
    requires
        !(pair_verdict(a@, b@, allow_ra_na_share) is Overflow),
    ensures
        verdict_of(r) == pair_verdict(a@, b@, allow_ra_na_share),
{
    if allow_ra_na_share {
        match (a.service_kind, b.service_kind) {
            (PrefixGroupServiceKind::Ra, PrefixGroupServiceKind::Na)
            | (PrefixGroupServiceKind::Na, PrefixGroupServiceKind::Ra) => {
                return Ok(());
            },
            _ => {},
        }
    }
    let dynamic: bool = a.is_dynamic();
    let (start_a, end_a) = a.effective_index_range(dynamic);
    let (start_b, end_b) = b.effective_index_range(dynamic);
    if a.service_kind == PrefixGroupServiceKind::IaPd && b.service_kind
        == PrefixGroupServiceKind::IaPd {
        if range_blocks_overlap(start_a, end_a, start_b, end_b) {
            return invalid_because("IA_PD ranges conflict under the same parent prefix");
        }
        return Ok(());
    }
    if a.service_kind == PrefixGroupServiceKind::IaPd {
        return validate_range(parent_len, start_a, end_a, a.pool_len, start_b, b.pool_len);
    }
    if b.service_kind == PrefixGroupServiceKind::IaPd {
        return validate_range(parent_len, start_b, end_b, b.pool_len, start_a, a.pool_len);
    }
    validate_range(parent_len, start_a, start_a, a.pool_len, start_b, b.pool_len)
}

/// The first conflict among the services of one group, from the pair `(i, j)` on.
pub open spec fn group_pairs_verdict(es: Seq<EntryView>, i: int, j: int) -> Verdict
    decreases es.len() - i, es.len() - j,
{
    if i < 0 || i >= es.len() {
        Verdict::Clean
    } else if j >= es.len() {
        group_pairs_verdict(es, i + 1, i + 2)
    } else {
        pair_verdict(es[i], es[j], true).or_else(group_pairs_verdict(es, i, j + 1))
    }
}

/// The first conflict of an entry on the left with one on the right under the
/// same parent, from the pair `(i, j)` on.
pub open spec fn cross_verdict(
    left: Seq<EntryView>,
    right: Seq<EntryView>,
    i: int,
    j: int,
) -> Verdict
    decreases left.len() - i, right.len() - j,
{
    if i < 0 || i >= left.len() {
        Verdict::Clean
    } else if j >= right.len() {
        cross_verdict(left, right, i + 1, 0)
    } else if left[i].parent != right[j].parent {
        cross_verdict(left, right, i, j + 1)
    } else {
        pair_verdict(left[i], right[j], false).or_else(cross_verdict(left, right, i, j + 1))
    }
}

/// What the services of a group take when all of them run.
pub open spec fn full_entries(g: LanPrefixGroupConfig, infos: Option<&PrefixInfoMap>) -> Seq<
    EntryView,
> {
    g.entries(IPv6ServiceMode::SlaacDhcpv6, infos)
}

/// The first thing wrong inside the groups from number `i` on.
pub open spec fn each_group_verdict(
    groups: Seq<LanPrefixGroupConfig>,
    infos: Option<&PrefixInfoMap>,
    i: int,
) -> Verdict
    decreases groups.len() - i,
{
    if i < 0 || i >= groups.len() {
        Verdict::Clean
    } else {
        groups[i].verdict(infos).or_else(
            group_pairs_verdict(full_entries(groups[i], infos), 0, 1),
        ).or_else(each_group_verdict(groups, infos, i + 1))
    }
}

/// The first conflict between two groups, from the pair `(i, j)` on.
pub open spec fn between_groups_verdict(
    groups: Seq<LanPrefixGroupConfig>,
    infos: Option<&PrefixInfoMap>,
    i: int,
    j: int,
) -> Verdict
    decreases groups.len() - i, groups.len() - j,
{
    if i < 0 || i >= groups.len() {
        Verdict::Clean
    } else if j >= groups.len() {
        between_groups_verdict(groups, infos, i + 1, i + 2)
    } else {
        cross_verdict(full_entries(groups[i], infos), full_entries(groups[j], infos), 0, 0).or_else(
            between_groups_verdict(groups, infos, i, j + 1),
        )
    }
}

/// The first thing wrong with a list of groups.
pub open spec fn groups_verdict(
    groups: Seq<LanPrefixGroupConfig>,
    infos: Option<&PrefixInfoMap>,
) -> Verdict {
    each_group_verdict(groups, infos, 0).or_else(between_groups_verdict(groups, infos, 0, 1))
}

fn validate_group_pairs(entries: &Vec<ExpandedPrefixEntry>) -> (r: Result<(), ServiceConfigError>)
    requires
        !(group_pairs_verdict(entry_views(entries@), 0, 1) is Overflow),
    ensures
        verdict_of(r) == group_pairs_verdict(entry_views(entries@), 0, 1),
{
    let n: usize = entries.len();
    let ghost es = entry_views(entries@);
    for i in 0..n
        invariant
            n == entries@.len(),
            es == entry_views(entries@),
            !(group_pairs_verdict(es, 0, 1) is Overflow),
            group_pairs_verdict(es, i as int, i + 1) == group_pairs_verdict(es, 0, 1),
    {
        for j in (i + 1)..n
            invariant
                i < n,
                n == entries@.len(),
                es == entry_views(entries@),
                !(group_pairs_verdict(es, 0, 1) is Overflow),
                group_pairs_verdict(es, i as int, j as int) == group_pairs_verdict(es, 0, 1),
        {
            let checked = validate_expanded_pair(
                &entries[i],
                &entries[j],
                entries[i].parent_prefix_len,
                true,
            );
            if checked.is_err() {
                return checked;
            }
        }
    }
    Ok(())
}

fn validate_cross(left: &Vec<ExpandedPrefixEntry>, right: &Vec<ExpandedPrefixEntry>) -> (r: Result<
    (),
    ServiceConfigError,
>)
    requires
        !(cross_verdict(entry_views(left@), entry_views(right@), 0, 0) is Overflow),
    ensures
        verdict_of(r) == cross_verdict(entry_views(left@), entry_views(right@), 0, 0),
{
    let n: usize = left.len();
    let m: usize = right.len();
    let ghost ls = entry_views(left@);
    let ghost rs = entry_views(right@);
    for i in 0..n
        invariant
            n == left@.len(),
            m == right@.len(),
            ls == entry_views(left@),
            rs == entry_views(right@),
            !(cross_verdict(ls, rs, 0, 0) is Overflow),
            cross_verdict(ls, rs, i as int, 0) == cross_verdict(ls, rs, 0, 0),
    {
        for j in 0..m
            invariant
                i < n,
                n == left@.len(),
                m == right@.len(),
                ls == entry_views(left@),
                rs == entry_views(right@),
                !(cross_verdict(ls, rs, 0, 0) is Overflow),
                cross_verdict(ls, rs, i as int, j as int) == cross_verdict(ls, rs, 0, 0),
        {
            if left[i].parent.same_parent(&right[j].parent) {
                let checked = validate_expanded_pair(
                    &left[i],
                    &right[j],
                    left[i].parent_prefix_len,
                    false,
                );
                if checked.is_err() {
                    return checked;
                }
            }
        }
    }
    Ok(())
}

pub fn validate_prefix_groups(groups: &[LanPrefixGroupConfig]) -> (r: Result<
    (),
    ServiceConfigError,
>)
    requires
        !(groups_verdict(groups@, None) is Overflow),
    ensures
        verdict_of(r) == groups_verdict(groups@, None),
{
    validate_prefix_groups_with_prefix_infos(groups, None)
}

pub fn validate_prefix_groups_with_prefix_infos(
    groups: &[LanPrefixGroupConfig],
    prefix_infos: Option<&PrefixInfoMap>,
) -> (r: Result<(), ServiceConfigError>)
    requires
        !(groups_verdict(groups@, prefix_infos) is Overflow),
    ensures
        verdict_of(r) == groups_verdict(groups@, prefix_infos),
{
    let n: usize = groups.len();
    let ghost inside = each_group_verdict(groups@, prefix_infos, 0);
    let ghost between = between_groups_verdict(groups@, prefix_infos, 0, 1);
    let mut expanded: Vec<Vec<ExpandedPrefixEntry>> = Vec::new();
    for i in 0..n
        invariant
            n == groups@.len(),
            !(groups_verdict(groups@, prefix_infos) is Overflow),
            inside == each_group_verdict(groups@, prefix_infos, 0),
            inside == each_group_verdict(groups@, prefix_infos, i as int),
            expanded@.len() == i,
            forall|k: int|
                0 <= k < i ==> entry_views((#[trigger] expanded@[k])@) == full_entries(
                    groups@[k],
                    prefix_infos,
                ),
    {
        let checked = groups[i].validate_with_prefix_infos(prefix_infos);
        if checked.is_err() {
            return checked;
        }
        let entries = groups[i].active_entries_with_prefix_infos(
            IPv6ServiceMode::SlaacDhcpv6,
            prefix_infos,
        );
        let paired = validate_group_pairs(&entries);
        if paired.is_err() {
            return paired;
        }
        expanded.push(entries);
    }
    for i in 0..n
        invariant
            n == groups@.len(),
            n == expanded@.len(),
            inside is Clean,
            !(between is Overflow),
            inside == each_group_verdict(groups@, prefix_infos, 0),
            between == between_groups_verdict(groups@, prefix_infos, 0, 1),
            between == between_groups_verdict(groups@, prefix_infos, i as int, i + 1),
            forall|k: int|
                0 <= k < n ==> entry_views((#[trigger] expanded@[k])@) == full_entries(
                    groups@[k],
                    prefix_infos,
                ),
    {
        for j in (i + 1)..n
            invariant
                i < n,
                n == groups@.len(),
                n == expanded@.len(),
                inside is Clean,
                !(between is Overflow),
                inside == each_group_verdict(groups@, prefix_infos, 0),
                between == between_groups_verdict(groups@, prefix_infos, 0, 1),
                between == between_groups_verdict(groups@, prefix_infos, i as int, j as int),
                forall|k: int|
                    0 <= k < n ==> entry_views((#[trigger] expanded@[k])@) == full_entries(
                        groups@[k],
                        prefix_infos,
                    ),
        {
            let checked = validate_cross(&expanded[i], &expanded[j]);
            if checked.is_err() {
                return checked;
            }
        }
    }
    Ok(())
}

/// The first conflict of new entries with the enabled configurations of other
/// interfaces from number `k` on.
pub open spec fn cross_interface_v2_verdict(
    new_config: LanIPv6ServiceConfigV2,
    others: Seq<LanIPv6ServiceConfigV2>,
    infos: Option<&PrefixInfoMap>,
    k: int,
) -> Verdict
    decreases others.len() - k,
{
    if k < 0 || k >= others.len() {
        Verdict::Clean
    } else if others[k].iface_name@ == new_config.iface_name@ || !others[k].enable {
        cross_interface_v2_verdict(new_config, others, infos, k + 1)
    } else {
        cross_verdict(
            new_config.config.entries(infos),
            others[k].config.entries(infos),
            0,
            0,
        ).or_else(cross_interface_v2_verdict(new_config, others, infos, k + 1))
    }
}

pub fn validate_cross_interface_v2(
    new_config: &LanIPv6ServiceConfigV2,
    other_configs: &[LanIPv6ServiceConfigV2],
) -> (r: Result<(), ServiceConfigError>)
    requires
        !(cross_interface_v2_verdict(*new_config, other_configs@, None, 0) is Overflow),
    ensures
        verdict_of(r) == cross_interface_v2_verdict(*new_config, other_configs@, None, 0),
{
    validate_cross_interface_v2_with_prefix_infos(new_config, other_configs, None)
}

pub fn validate_cross_interface_v2_with_prefix_infos(
    new_config: &LanIPv6ServiceConfigV2,
    other_configs: &[LanIPv6ServiceConfigV2],
    prefix_infos: Option<&PrefixInfoMap>,
) -> (r: Result<(), ServiceConfigError>)
    requires
        !(cross_interface_v2_verdict(*new_config, other_configs@, prefix_infos, 0) is Overflow),
    ensures
        verdict_of(r) == cross_interface_v2_verdict(*new_config, other_configs@, prefix_infos, 0),
{
    let new_entries = new_config.config.active_entries_with_prefix_infos(prefix_infos);
    let n: usize = other_configs.len();
    let ghost whole = cross_interface_v2_verdict(*new_config, other_configs@, prefix_infos, 0);
    for k in 0..n
        invariant
            n == other_configs@.len(),
            entry_views(new_entries@) == new_config.config.entries(prefix_infos),
            !(whole is Overflow),
            whole == cross_interface_v2_verdict(*new_config, other_configs@, prefix_infos, 0),
            whole == cross_interface_v2_verdict(
                *new_config,
                other_configs@,
                prefix_infos,
                k as int,
            ),
    {
        let other = &other_configs[k];
        if !same_text(&other.iface_name, &new_config.iface_name) && other.enable {
            let entries = other.config.active_entries_with_prefix_infos(prefix_infos);
            let checked = validate_cross(&new_entries, &entries);
            if checked.is_err() {
                return checked;
            }
        }
    }
    Ok(())
}

proof fn lemma_group_pairs_from(es: Seq<EntryView>, i: int, j: int)
    requires
        0 <= i < j,
    ensures
        group_pairs_verdict(es, i, j) is Clean <==> forall|a: int, b: int|
            0 <= a < b < es.len() && (a > i || (a == i && b >= j)) ==> (#[trigger] pair_verdict(
                es[a],
                es[b],
                true,
            )) is Clean,
    decreases es.len() - i, es.len() - j,
{
    if i < es.len() {
        if j >= es.len() {
            lemma_group_pairs_from(es, i + 1, i + 2);
        } else {
            lemma_group_pairs_from(es, i, j + 1);
        }
    }
}

proof fn lemma_cross_from(left: Seq<EntryView>, right: Seq<EntryView>, i: int, j: int)
    requires
        0 <= i,
        0 <= j,
    ensures
        cross_verdict(left, right, i, j) is Clean <==> forall|a: int, b: int|
            0 <= a < left.len() && 0 <= b < right.len() && (a > i || (a == i && b >= j))
                && left[a].parent == right[b].parent ==> (#[trigger] pair_verdict(
                left[a],
                right[b],
                false,
            )) is Clean,
    decreases left.len() - i, right.len() - j,
{
    if i < left.len() {
        if j >= right.len() {
            lemma_cross_from(left, right, i + 1, 0);
        } else {
            lemma_cross_from(left, right, i, j + 1);
            let first = pair_verdict(left[i], right[j], false);
        }
    }
}

proof fn lemma_each_group_from(
    groups: Seq<LanPrefixGroupConfig>,
    infos: Option<&PrefixInfoMap>,
    i: int,
)
    requires
        0 <= i,
    ensures
        each_group_verdict(groups, infos, i) is Clean <==> forall|a: int|
            i <= a < groups.len() ==> group_in_order(#[trigger] groups[a], infos),
    decreases groups.len() - i,
{
    if i < groups.len() {
        lemma_each_group_from(groups, infos, i + 1);
        lemma_group_pairs_from(full_entries(groups[i], infos), 0, 1);
        if each_group_verdict(groups, infos, i) is Clean {
            assert(group_in_order(groups[i], infos));
        }
    }
}

proof fn lemma_between_groups_from(
    groups: Seq<LanPrefixGroupConfig>,
    infos: Option<&PrefixInfoMap>,
    i: int,
    j: int,
)
    requires
        0 <= i < j,
    ensures
        between_groups_verdict(groups, infos, i, j) is Clean <==> forall|a: int, b: int|
            0 <= a < b < groups.len() && (a > i || (a == i && b >= j)) ==> entries_apart(
                #[trigger] full_entries(groups[a], infos),
                #[trigger] full_entries(groups[b], infos),
            ),
    decreases groups.len() - i, groups.len() - j,
{
    if i < groups.len() {
        if j >= groups.len() {
            lemma_between_groups_from(groups, infos, i + 1, i + 2);
        } else {
            lemma_between_groups_from(groups, infos, i, j + 1);
            let left = full_entries(groups[i], infos);
            let right = full_entries(groups[j], infos);
            lemma_cross_from(left, right, 0, 0);
            if between_groups_verdict(groups, infos, i, j) is Clean {
                assert(entries_apart(left, right));
            }
        }
    }
}

/// Whether no entry on the left conflicts with one on the right under the
/// same parent.
pub open spec fn entries_apart(left: Seq<EntryView>, right: Seq<EntryView>) -> bool {
    forall|a: int, b: int|
        0 <= a < left.len() && 0 <= b < right.len() && left[a].parent == right[b].parent ==> (
        #[trigger] pair_verdict(left[a], right[b], false)) is Clean
}

/// Whether a group is right in itself, and its services do not conflict.
pub open spec fn group_in_order(g: LanPrefixGroupConfig, infos: Option<&PrefixInfoMap>) -> bool {
    &&& g.verdict(infos) is Clean
    &&& forall|a: int, b: int|
        0 <= a < b < full_entries(g, infos).len() ==> (#[trigger] pair_verdict(
            full_entries(g, infos)[a],
            full_entries(g, infos)[b],
            true,
        )) is Clean
}

/// A list of groups is accepted exactly when each group is right in itself,
/// with services that do not conflict, and no two groups conflict under the
/// same parent.
pub proof fn law_accepted_groups(
    groups: Seq<LanPrefixGroupConfig>,
    infos: Option<&PrefixInfoMap>,
)
    ensures
        groups_verdict(groups, infos) is Clean <==> {
            &&& forall|a: int|
                0 <= a < groups.len() ==> group_in_order(#[trigger] groups[a], infos)
            &&& forall|a: int, b: int|
                0 <= a < b < groups.len() ==> entries_apart(
                    #[trigger] full_entries(groups[a], infos),
                    #[trigger] full_entries(groups[b], infos),
                )
        },
{
    lemma_each_group_from(groups, infos, 0);
    lemma_between_groups_from(groups, infos, 0, 1);
}

/// Two entries that do not conflict have no blocks that overlap, where at
/// most one of them delegates prefixes and they are not an announcement and
/// an assignment that may share.
pub proof fn law_clean_pair_blocks_apart(a: EntryView, b: EntryView, x: u64, y: u64)
    requires
        pair_verdict(a, b, false) is Clean,
        !(a.service_kind is IaPd && b.service_kind is IaPd),
        !(a.service_kind is IaPd) ==> a.start_index == a.end_index,
        !(b.service_kind is IaPd) ==> b.start_index == b.end_index,
        a.start_index <= x <= a.end_index,
        b.start_index <= y <= b.end_index,
    ensures
        !blocks_meet(x, a.pool_len, y, b.pool_len),
{
    crate::lan_ipv6::blocks::law_overlap_symmetric(x, a.pool_len, y, b.pool_len);
}

/// Two delegated ranges that do not conflict have no index in common.
pub proof fn law_clean_ranges_apart(a: EntryView, b: EntryView, share: bool, x: u32)
    requires
        pair_verdict(a, b, share) is Clean,
        a.service_kind is IaPd,
        b.service_kind is IaPd,
    ensures
        !(a.start_index <= x <= a.end_index && b.start_index <= x <= b.end_index),
{
}

/// Inside an accepted group each service stays within the parent prefix, and
/// leaves block zero of a delegated parent to the uplink.
pub proof fn law_accepted_group_in_parent(
    g: LanPrefixGroupConfig,
    mode: IPv6ServiceMode,
    infos: Option<&PrefixInfoMap>,
    k: int,
)
    requires
        g.verdict(infos) is Clean,
        0 <= k < g.entries(mode, infos).len(),
    ensures
        ({
            let e = g.entries(mode, infos)[k];
            &&& within_capacity(e.start_index, e.end_index, e.pool_len, e.parent_prefix_len)
            &&& e.pool_len <= 128
            &&& !(e.service_kind is IaPd) ==> e.start_index == e.end_index && e.pool_len == 64
            &&& g.parent is Pd ==> e.start_index >= 1
        }),
{
}

/// The order of two groups' entries does not matter for whether they conflict.
pub proof fn law_conflict_symmetric(a: EntryView, b: EntryView, share: bool)
    requires
        !(a.service_kind is IaPd) ==> a.start_index == a.end_index,
        !(b.service_kind is IaPd) ==> b.start_index == b.end_index,
    ensures
        pair_verdict(a, b, share) == pair_verdict(b, a, share),
{
    if !(a.service_kind is IaPd) && !(b.service_kind is IaPd) {
        crate::lan_ipv6::blocks::law_overlap_symmetric(
            a.start_index as u64,
            a.pool_len,
            b.start_index as u64,
            b.pool_len,
        );
        let (i, m) = (a.start_index as u64, a.pool_len);
        let (j, n) = (b.start_index as u64, b.pool_len);
        assert(range_meets(i, i, m, j, n) == blocks_meet(i, m, j, n));
        assert(range_meets(j, j, n, i, m) == blocks_meet(j, n, i, m));
        if !blocks_fit(i, m, j, n) {
            assert(range_overflows(i, i, m, j, n));
            assert(range_overflows(j, j, n, i, m));
        } else {
            assert(!range_overflows(i, i, m, j, n));
            assert(!range_overflows(j, j, n, i, m));
        }
    }
}

/// A group is right in itself exactly when it has an id, its parent a length
/// from 1 to 127, each announced or assigned block fits into a parent shorter
/// than 64 bits, its delegated range has blocks of 1 to 128 bits that are
/// smaller than the parent and fit into it, and none of them takes the first
/// block of a delegated parent.
pub proof fn law_accepted_group(g: LanPrefixGroupConfig, infos: Option<&PrefixInfoMap>)
    ensures
        ({
            let len = g.parent.resolved_len(infos);
            let first = if g.parent is Pd {
                1int
            } else {
                0
            };
            g.verdict(infos) is Clean <==> {
                &&& trimmed(g.group_id@).len() > 0
                &&& 1 <= g.parent.configured_len() <= 127
                &&& g.ra matches Some(ra) ==> first <= ra.pool_index && len < 64 && ra.pool_index
                    < pow2((64 - len) as nat)
                &&& g.na matches Some(na) ==> first <= na.pool_index && len < 64 && na.pool_index
                    < pow2((64 - len) as nat)
                &&& g.pd matches Some(pd) ==> 1 <= pd.pool_len <= 128 && pd.start_index
                    <= pd.end_index && first <= pd.start_index && len < pd.pool_len && pd.end_index
                    < pow2((pd.pool_len - len) as nat)
            }
        }),
{
}

/// In each mode a group takes what is served there: the announced block where
/// hosts choose their addresses, and the assigned block and the delegated range
/// where DHCPv6 runs; all under its parent, single blocks with 64 bits.
pub proof fn law_entries_of_a_group(
    g: LanPrefixGroupConfig,
    mode: IPv6ServiceMode,
    infos: Option<&PrefixInfoMap>,
    kind: PrefixGroupServiceKind,
)
    ensures
        ({
            let entries = g.entries(mode, infos);
            let served = match kind {
                PrefixGroupServiceKind::Ra => g.ra is Some && mode != IPv6ServiceMode::Stateful,
                PrefixGroupServiceKind::Na => g.na is Some && mode != IPv6ServiceMode::Slaac,
                PrefixGroupServiceKind::IaPd => g.pd is Some && mode != IPv6ServiceMode::Slaac,
            };
            let (start, end, len) = match kind {
                PrefixGroupServiceKind::Ra => (g.ra->0.pool_index, g.ra->0.pool_index, 64u8),
                PrefixGroupServiceKind::Na => (g.na->0.pool_index, g.na->0.pool_index, 64u8),
                PrefixGroupServiceKind::IaPd => (
                    g.pd->0.start_index,
                    g.pd->0.end_index,
                    g.pd->0.pool_len,
                ),
            };
            let entry = EntryView {
                parent: g.parent.expanded(infos),
                parent_prefix_len: g.parent.resolved_len(infos),
                service_kind: kind,
                start_index: start,
                end_index: end,
                pool_len: len,
            };
            &&& served ==> entries.contains(entry)
            &&& forall|k: int|
                0 <= k < entries.len() && (#[trigger] entries[k]).service_kind == kind ==> served
                    && entries[k] == entry
        }),
{
    let entries = g.entries(mode, infos);
    let ra = g.ra is Some && mode != IPv6ServiceMode::Stateful;
    let na = g.na is Some && mode != IPv6ServiceMode::Slaac;
    let pd = g.pd is Some && mode != IPv6ServiceMode::Slaac;
    let at_na = if ra {
        1int
    } else {
        0
    };
    let at_pd = if na {
        at_na + 1
    } else {
        at_na
    };
    if ra {
        assert(entries[0].service_kind is Ra);
    }
    if na {
        assert(entries[at_na].service_kind is Na);
    }
    if pd {
        assert(entries[at_pd].service_kind is IaPd);
    }
}

/// A delegated prefix that is known stands for its parent, with its own length
/// and the bits behind it cleared; else what is configured stands for it.
pub proof fn law_known_prefix_stands_for_its_parent(
    iface: String,
    planned: u8,
    base_prefix: Ipv6Addr,
    len: u8,
    infos: &PrefixInfoMap,
)
    ensures
        ({
            let pd = PrefixParentSource::Pd { depend_iface: iface, planned_parent_prefix_len: planned };
            let fixed = PrefixParentSource::Static { base_prefix, parent_prefix_len: len };
            let known = if infos@.contains_key(iface@) {
                infos@[iface@]
            } else {
                None
            };
            &&& known matches Some(p) ==> pd.resolved_len(Some(infos)) == p.prefix_len && (
            p.prefix_len <= 128 ==> pd.expanded(Some(infos)) == ParentView::PdActual(
                spec_network(p.prefix_ip, p.prefix_len),
                p.prefix_len,
            ))
            &&& known is None ==> pd.resolved_len(Some(infos)) == planned && pd.expanded(Some(infos))
                == ParentView::PdFallback(iface@, planned)
            &&& pd.resolved_len(None) == planned
            &&& pd.expanded(None) == ParentView::PdFallback(iface@, planned)
            &&& fixed.resolved_len(Some(infos)) == len
            &&& fixed.expanded(Some(infos)) == ParentView::Static(base_prefix, len)
            &&& pd.configured_len() == planned && fixed.configured_len() == len
        }),
{
}

/// Two entries conflict only where a block of the one overlaps a block of the
/// other; two delegated ranges where they have a number in common. An
/// announced and an assigned block never conflict where they may be shared.
pub proof fn law_conflict_is_an_overlap(a: EntryView, b: EntryView, share: bool)
    requires
        pair_verdict(a, b, share) is Fault,
        !(a.service_kind is IaPd) ==> a.start_index == a.end_index,
        !(b.service_kind is IaPd) ==> b.start_index == b.end_index,
    ensures
        !(share && ((a.service_kind is Ra && b.service_kind is Na) || (a.service_kind is Na
            && b.service_kind is Ra))),
        a.service_kind is IaPd && b.service_kind is IaPd ==> a.start_index <= b.end_index
            && b.start_index <= a.end_index,
        !(a.service_kind is IaPd && b.service_kind is IaPd) ==> exists|x: u64, y: u64|
            a.start_index <= x <= a.end_index && b.start_index <= y <= b.end_index
                && #[trigger] blocks_meet(x, a.pool_len, y, b.pool_len),
{
    let (i, m) = (a.start_index as u64, a.pool_len);
    let (j, n) = (b.start_index as u64, b.pool_len);
    if a.service_kind is IaPd && b.service_kind is IaPd {
    } else if a.service_kind is IaPd {
        let x = choose|x: u64| i <= x <= a.end_index && #[trigger] blocks_meet(x, m, j, n);
        assert(blocks_meet(x, m, j, n));
    } else if b.service_kind is IaPd {
        let y = choose|y: u64| j <= y <= b.end_index && #[trigger] blocks_meet(y, n, i, m);
        crate::lan_ipv6::blocks::law_overlap_symmetric(y, n, i, m);
        assert(blocks_meet(i, m, y, n));
    } else {
        assert(blocks_meet(i, m, j, n));
    }
}

/// The unique local addresses are those from `fc00::` to the last one that
/// starts with `fdff`.
pub proof fn law_unique_local_addresses(addr: Ipv6Addr)
    ensures
        ula(addr) <==> 0xfc00_0000_0000_0000_0000_0000_0000_0000 <= addr.bits
            <= 0xfdff_ffff_ffff_ffff_ffff_ffff_ffff_ffff,
{
}

} // verus!

//! The IPv6 service of a LAN interface: its mode and its prefixes.
use vstd::prelude::*;
use crate::error::{invalid, invalid_because, verdict_of, ServiceConfigError, Verdict};
use crate::lan_ipv6::dhcpv6_config::DHCPv6ServerConfig;
use crate::lan_ipv6::ipv6_ra::RouterFlags;
use crate::lan_ipv6::prefix_group::{
    entry_views, groups_verdict, is_ula, ula, validate_prefix_groups_with_prefix_infos, EntryView,
    ExpandedPrefixEntry, LanPrefixGroupConfig, PrefixInfoMap, PrefixParentSource,
};

verus! {

/// How hosts get their addresses.
#[derive(Debug, Clone, Copy, PartialEq, Eq, Structural)]
pub enum IPv6ServiceMode {
    Slaac,
    Stateful,
    SlaacDhcpv6,
}

impl Default for IPv6ServiceMode {
    fn default() -> (r: Self)
        ensures
            r is Slaac,
    {
        IPv6ServiceMode::Slaac
    }
}

#[derive(Debug, Clone, Copy, PartialEq, Eq, Hash, Structural)]
pub enum SourceServiceKind {
    Ra,
    Na,
    IaPd,
}

#[derive(Debug, Clone, Copy, PartialEq, Eq, Hash, Structural)]
pub enum PrefixGroupServiceKind {
    Ra,
    Na,
    IaPd,
}

/// A configuration in terms of prefix groups.
#[derive(Debug)]
pub struct LanIPv6ConfigV2 {
    pub mode: IPv6ServiceMode,
    pub ad_interval: u32,
    pub ra_flag: RouterFlags,
    pub prefix_groups: Vec<LanPrefixGroupConfig>,
    pub dhcpv6: Option<DHCPv6ServerConfig>,
}

/// The configuration of one interface in terms of prefix groups.
#[derive(Debug)]
pub struct LanIPv6ServiceConfigV2 {
    pub iface_name: String,
    pub enable: bool,
    pub config: LanIPv6ConfigV2,
}

/// What is wrong where a mode needs a DHCPv6 server that is switched on.
pub open spec fn running_dhcpv6_verdict(
    mode: Seq<char>,
    dhcpv6: Option<DHCPv6ServerConfig>,
) -> Verdict {
    match dhcpv6 {
        None => Verdict::Fault(mode + " mode requires DHCPv6 configuration"@),
        Some(server) => if !server.enable {
            Verdict::Fault(mode + " mode requires DHCPv6 to be enabled"@)
        } else {
            server.verdict()
        },
    }
}

pub(crate) fn validate_running_dhcpv6(mode: &str, dhcpv6: &Option<DHCPv6ServerConfig>) -> (r:
    Result<(), ServiceConfigError>)
    ensures
        verdict_of(r) == running_dhcpv6_verdict(mode@, *dhcpv6),
{
    match dhcpv6 {
        None => invalid(mode.to_owned().concat(" mode requires DHCPv6 configuration")),
        Some(server) => {
            if !server.enable {
                return invalid(mode.to_owned().concat(" mode requires DHCPv6 to be enabled"));
            }
            server.validate()
        },
    }
}

/// What is wrong in a mode in which hosts choose their own addresses, once
/// there is something to announce.
pub open spec fn slaac_flags_verdict(
    ra_flag: RouterFlags,
    dhcpv6: Option<DHCPv6ServerConfig>,
) -> Verdict {
    if ra_flag.managed_address_config {
        Verdict::Fault("Slaac mode requires M flag to be 0"@)
    } else if dhcpv6 is Some && dhcpv6->0.enable {
        Verdict::Fault("Slaac mode does not allow DHCPv6 to be enabled"@)
    } else {
        Verdict::Clean
    }
}

pub(crate) fn validate_slaac_flags(
    ra_flag: RouterFlags,
    dhcpv6: &Option<DHCPv6ServerConfig>,
) -> (r: Result<(), ServiceConfigError>)
    ensures
        verdict_of(r) == slaac_flags_verdict(ra_flag, *dhcpv6),
{
    if ra_flag.managed_address_config {
        return invalid_because("Slaac mode requires M flag to be 0");
    }
    if let Some(server) = dhcpv6 {
        if server.enable {
            return invalid_because("Slaac mode does not allow DHCPv6 to be enabled");
        }
    }
    Ok(())
}

/// The first group from number `i` on that announces a prefix which is not a
/// static unique local one.
pub open spec fn ula_groups_verdict(groups: Seq<LanPrefixGroupConfig>, i: int) -> Verdict
    decreases groups.len() - i,
{
    if i < 0 || i >= groups.len() {
        Verdict::Clean
    } else if groups[i].ra is None {
        ula_groups_verdict(groups, i + 1)
    } else {
        match groups[i].parent {
            PrefixParentSource::Static { base_prefix, .. } => if ula(base_prefix) {
                ula_groups_verdict(groups, i + 1)
            } else {
                Verdict::Fault(
                    "SlaacDhcpv6 mode requires RA prefix groups to be ULA (fc00::/7), got: "@
                        + base_prefix.text(),
                )
            },
            PrefixParentSource::Pd { .. } => Verdict::Fault(
                "SlaacDhcpv6 mode only allows Static RA prefix groups"@,
            ),
        }
    }
}

/// Whether some group announces a prefix.
pub open spec fn any_ra(groups: Seq<LanPrefixGroupConfig>) -> bool {
    exists|i: int| 0 <= i < groups.len() && (#[trigger] groups[i]).ra is Some
}

/// Whether some group assigns addresses.
pub open spec fn any_na(groups: Seq<LanPrefixGroupConfig>) -> bool {
    exists|i: int| 0 <= i < groups.len() && (#[trigger] groups[i]).na is Some
}

/// Whether some group delegates prefixes.
pub open spec fn any_pd(groups: Seq<LanPrefixGroupConfig>) -> bool {
    exists|i: int| 0 <= i < groups.len() && (#[trigger] groups[i]).pd is Some
}

impl LanIPv6ConfigV2 {
    /// The first thing that the mode does not allow.
    pub open spec fn mode_verdict(self) -> Verdict {
        let groups = self.prefix_groups@;
        let managed = self.ra_flag.managed_address_config && self.ra_flag.other_config;
        match self.mode {
            IPv6ServiceMode::Slaac => if !any_ra(groups) {
                Verdict::Fault("Slaac mode requires at least one RA prefix group"@)
            } else {
                slaac_flags_verdict(self.ra_flag, self.dhcpv6)
            },
            IPv6ServiceMode::Stateful => if !any_na(groups) {
                Verdict::Fault("Stateful mode requires at least one IA_NA prefix group"@)
            } else if !managed {
                Verdict::Fault("Stateful mode requires M=1 and O=1"@)
            } else {
                running_dhcpv6_verdict("Stateful"@, self.dhcpv6)
            },
            IPv6ServiceMode::SlaacDhcpv6 => if !any_ra(groups) {
                Verdict::Fault("SlaacDhcpv6 mode requires at least one RA prefix group"@)
            } else {
                ula_groups_verdict(groups, 0).or_else(
                    if !managed {
                        Verdict::Fault("SlaacDhcpv6 mode requires M=1 and O=1"@)
                    } else if !any_na(groups) && !any_pd(groups) {
                        Verdict::Fault(
                            "SlaacDhcpv6 mode requires at least one DHCPv6 prefix group (NA or PD)"@,
                        )
                    } else {
                        running_dhcpv6_verdict("SlaacDhcpv6"@, self.dhcpv6)
                    },
                )
            },
        }
    }

    /// The first thing wrong with the configuration.
    pub open spec fn verdict(self, infos: Option<&PrefixInfoMap>) -> Verdict {
        groups_verdict(self.prefix_groups@, infos).or_else(self.mode_verdict())
    }

    pub fn validate(&self) -> (r: Result<(), ServiceConfigError>)
        requires
            !(self.verdict(None) is Overflow),
        ensures
            verdict_of(r) == self.verdict(None),
    {
        self.validate_with_prefix_infos(None)
    }

    fn has_ra(&self) -> (r: bool)
        ensures
            r == any_ra(self.prefix_groups@),
    {
        let n: usize = self.prefix_groups.len();
        for i in 0..n
            invariant
                n == self.prefix_groups@.len(),
                forall|k: int| 0 <= k < i ==> (#[trigger] self.prefix_groups@[k]).ra is None,
        {
            if self.prefix_groups[i].ra.is_some() {
                return true;
            }
        }
        false
    }

    fn has_na(&self) -> (r: bool)
        ensures
            r == any_na(self.prefix_groups@),
    {
        let n: usize = self.prefix_groups.len();
        for i in 0..n
            invariant
                n == self.prefix_groups@.len(),
                forall|k: int| 0 <= k < i ==> (#[trigger] self.prefix_groups@[k]).na is None,
        {
            if self.prefix_groups[i].na.is_some() {
                return true;
            }
        }
        false
    }

    fn has_pd(&self) -> (r: bool)
        ensures
            r == any_pd(self.prefix_groups@),
    {
        let n: usize = self.prefix_groups.len();
        for i in 0..n
            invariant
                n == self.prefix_groups@.len(),
                forall|k: int| 0 <= k < i ==> (#[trigger] self.prefix_groups@[k]).pd is None,
        {
            if self.prefix_groups[i].pd.is_some() {
                return true;
            }
        }
        false
    }

    fn validate_ula_groups(&self) -> (r: Result<(), ServiceConfigError>)
        ensures
            verdict_of(r) == ula_groups_verdict(self.prefix_groups@, 0),
    {
        let n: usize = self.prefix_groups.len();
        for i in 0..n
            invariant
                n == self.prefix_groups@.len(),
                ula_groups_verdict(self.prefix_groups@, 0) == ula_groups_verdict(
                    self.prefix_groups@,
                    i as int,
                ),
        {
            let group = &self.prefix_groups[i];
            if group.ra.is_some() {
                match &group.parent {
                    PrefixParentSource::Static { base_prefix, .. } => {
                        if !is_ula(*base_prefix) {
                            return invalid(
                                "SlaacDhcpv6 mode requires RA prefix groups to be ULA (fc00::/7), got: ".to_owned().concat(
                                    &base_prefix.to_text(),
                                ),
                            );
                        }
                    },
                    PrefixParentSource::Pd { .. } => {
                        return invalid_because(
                            "SlaacDhcpv6 mode only allows Static RA prefix groups",
                        );
                    },
                }
            }
        }
        Ok(())
    }

    pub fn validate_with_prefix_infos(&self, prefix_infos: Option<&PrefixInfoMap>) -> (r: Result<
        (),
        ServiceConfigError,
    >)
        requires
            !(self.verdict(prefix_infos) is Overflow),
        ensures
            verdict_of(r) == self.verdict(prefix_infos),
    {
        let groups = validate_prefix_groups_with_prefix_infos(&self.prefix_groups, prefix_infos);
        if groups.is_err() {
            return groups;
        }
        let managed: bool = self.ra_flag.managed_address_config && self.ra_flag.other_config;
        match self.mode {
            IPv6ServiceMode::Slaac => {
                if !self.has_ra() {
                    return invalid_because("Slaac mode requires at least one RA prefix group");
                }
                validate_slaac_flags(self.ra_flag, &self.dhcpv6)
            },
            IPv6ServiceMode::Stateful => {
                if !self.has_na() {
                    return invalid_because("Stateful mode requires at least one IA_NA prefix group",
                    );
                }
                if !managed {
                    return invalid_because("Stateful mode requires M=1 and O=1");
                }
                validate_running_dhcpv6("Stateful", &self.dhcpv6)
            },
            IPv6ServiceMode::SlaacDhcpv6 => {
                if !self.has_ra() {
                    return invalid_because("SlaacDhcpv6 mode requires at least one RA prefix group",
                    );
                }
                let announced = self.validate_ula_groups();
                if announced.is_err() {
                    return announced;
                }
                if !managed {
                    return invalid_because("SlaacDhcpv6 mode requires M=1 and O=1");
                }
                if !self.has_na() && !self.has_pd() {
                    return invalid_because(
                        "SlaacDhcpv6 mode requires at least one DHCPv6 prefix group (NA or PD)",
                    );
                }
                validate_running_dhcpv6("SlaacDhcpv6", &self.dhcpv6)
            },
        }
    }

    /// What the services that run in the mode take, group by group.
    pub open spec fn entries(self, infos: Option<&PrefixInfoMap>) -> Seq<EntryView> {
        entries_of_groups(self.prefix_groups@, self.mode, infos)
    }

    pub fn active_entries(&self) -> (r: Vec<ExpandedPrefixEntry>)
        ensures
            entry_views(r@) == self.entries(None),
    {
        self.active_entries_with_prefix_infos(None)
    }

    pub fn active_entries_with_prefix_infos(&self, prefix_infos: Option<&PrefixInfoMap>) -> (r: Vec<
        ExpandedPrefixEntry,
    >)
        ensures
            entry_views(r@) == self.entries(prefix_infos),
    {
        let mut result: Vec<ExpandedPrefixEntry> = Vec::new();
        let n: usize = self.prefix_groups.len();
        let ghost groups = self.prefix_groups@;
        assert(entry_views(result@) =~= entries_of_groups(groups.take(0), self.mode, prefix_infos));
        for i in 0..n
            invariant
                n == groups.len(),
                groups == self.prefix_groups@,
                entry_views(result@) == entries_of_groups(
                    groups.take(i as int),
                    self.mode,
                    prefix_infos,
                ),
        {
            let mut part = self.prefix_groups[i].active_entries_with_prefix_infos(
                self.mode,
                prefix_infos,
            );
            let ghost before = result@;
            let ghost added = part@;
            result.append(&mut part);
            proof {
                assert(result@ == before + added);
                assert(entry_views(before + added) =~= entry_views(before) + entry_views(added));
                assert(groups.take(i + 1).drop_last() =~= groups.take(i as int));
            }
        }
        assert(groups.take(n as int) =~= groups);
        result
    }
}

/// What the services that run in a mode take, group by group.
pub open spec fn entries_of_groups(
    groups: Seq<LanPrefixGroupConfig>,
    mode: IPv6ServiceMode,
    infos: Option<&PrefixInfoMap>,
) -> Seq<EntryView>
    decreases groups.len(),
{
    if groups.len() == 0 {
        Seq::empty()
    } else {
        entries_of_groups(groups.drop_last(), mode, infos) + groups.last().entries(mode, infos)
    }
}

/// Which configurations a mode allows, once the groups are right. Where hosts
/// choose their addresses some group announces a prefix, and neither the
/// managed flag nor DHCPv6 is on. Where addresses are assigned some group
/// assigns them, and where both are done some group announces a prefix and
/// some other service is there, every announced prefix being a static unique
/// local one; in both modes both flags and DHCPv6 are on, and its settings
/// are right.
pub proof fn law_allowed_by_mode(c: LanIPv6ConfigV2)
    ensures
        ({
            let groups = c.prefix_groups@;
            let announces = exists|i: int|
                0 <= i < groups.len() && (#[trigger] groups[i]).ra is Some;
            let assigns = exists|i: int|
                0 <= i < groups.len() && (#[trigger] groups[i]).na is Some;
            let delegates = exists|i: int|
                0 <= i < groups.len() && (#[trigger] groups[i]).pd is Some;
            let served = c.ra_flag.managed_address_config && c.ra_flag.other_config && (
            c.dhcpv6 matches Some(server) && server.enable && server.verdict() is Clean);
            c.mode_verdict() is Clean <==> match c.mode {
                IPv6ServiceMode::Slaac => announces && !c.ra_flag.managed_address_config && !(
                c.dhcpv6 matches Some(server) && server.enable),
                IPv6ServiceMode::Stateful => assigns && served,
                IPv6ServiceMode::SlaacDhcpv6 => announces && served && (assigns || delegates)
                    && forall|i: int|
                    0 <= i < groups.len() && (#[trigger] groups[i]).ra is Some ==> (
                    groups[i].parent matches PrefixParentSource::Static { base_prefix, .. } && ula(
                        base_prefix,
                    )),
            }
        }),
{
    lemma_ula_groups_from(c.prefix_groups@, 0);
}

proof fn lemma_ula_groups_from(groups: Seq<LanPrefixGroupConfig>, i: int)
    requires
        0 <= i,
    ensures
        ula_groups_verdict(groups, i) is Clean <==> forall|k: int|
            i <= k < groups.len() && (#[trigger] groups[k]).ra is Some ==> (groups[k].parent matches
                PrefixParentSource::Static { base_prefix, .. } && ula(base_prefix)),
    decreases groups.len() - i,
{
    if i < groups.len() {
        lemma_ula_groups_from(groups, i + 1);
    }
}

/// What a configuration takes are the entries of its groups, group by group.
pub proof fn law_entries_group_by_group(
    front: Seq<LanPrefixGroupConfig>,
    group: LanPrefixGroupConfig,
    mode: IPv6ServiceMode,
    infos: Option<&PrefixInfoMap>,
)
    ensures
        entries_of_groups(Seq::empty(), mode, infos).len() == 0,
        entries_of_groups(front.push(group), mode, infos) == entries_of_groups(front, mode, infos)
            + group.entries(mode, infos),
{
    assert(front.push(group).drop_last() =~= front);
}

} // verus!

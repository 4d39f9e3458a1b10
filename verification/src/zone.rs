//! Which interfaces a service may run on, and how its configuration is stored.
use vstd::prelude::*;
use crate::lan_ipv6::config::LanIPv6ServiceConfigV2;
use crate::lan_ipv6::ipv6_ra::IPV6RAServiceConfig;
use crate::lan_ipv6::source_config::LanIPv6ServiceConfig;
use crate::natting::config::NatServiceConfig;
use crate::ppp::config::PPPDServiceConfig;

verus! {

/// Where an interface must lie for a service to run on it.
#[derive(Debug, Clone, Copy, PartialEq, Eq, Structural)]
pub enum ZoneRequirement {
    LanOnly,
    WanOnly,
    WanOrPpp,
}

/// A service that runs on an interface.
#[derive(Debug, Clone, Copy, PartialEq, Eq, Structural)]
pub enum ServiceKind {
    LanIpv6,
    Icmpv6Ra,
    NAT,
    PPPoE,
}

/// The configuration of a service on an interface.
pub trait ZoneAwareConfig: Sized {
    /// The name of the interface.
    spec fn runs_on(self) -> Seq<char>;

    /// The name that the configuration is stored under.
    spec fn stored_under(self) -> Seq<char>;

    fn iface_name(&self) -> (r: &str)
        ensures
            r@ == self.runs_on(),
    ;

    fn get_store_key(&self) -> (r: String)
        ensures
            r@ == self.stored_under(),
    ;

    fn get_id(&self) -> (r: String)
        ensures
            r@ == self.stored_under(),
    ;

    fn zone_requirement() -> ZoneRequirement;

    fn service_kind() -> ServiceKind;
}

impl ZoneAwareConfig for LanIPv6ServiceConfig {
    open spec fn runs_on(self) -> Seq<char> {
        self.iface_name@
    }

    open spec fn stored_under(self) -> Seq<char> {
        self.iface_name@
    }

    fn iface_name(&self) -> (r: &str) {
        &self.iface_name
    }

    fn get_store_key(&self) -> (r: String) {
        self.iface_name.clone()
    }

    fn get_id(&self) -> (r: String) {
        self.iface_name.clone()
    }

    fn zone_requirement() -> (r: ZoneRequirement)
        ensures
            r is LanOnly,
    {
        ZoneRequirement::LanOnly
    }

    fn service_kind() -> (r: ServiceKind)
        ensures
            r is LanIpv6,
    {
        ServiceKind::LanIpv6
    }
}

impl ZoneAwareConfig for LanIPv6ServiceConfigV2 {
    open spec fn runs_on(self) -> Seq<char> {
        self.iface_name@
    }

    open spec fn stored_under(self) -> Seq<char> {
        self.iface_name@
    }

    fn iface_name(&self) -> (r: &str) {
        &self.iface_name
    }

    fn get_store_key(&self) -> (r: String) {
        self.iface_name.clone()
    }

    fn get_id(&self) -> (r: String) {
        self.iface_name.clone()
    }

    fn zone_requirement() -> (r: ZoneRequirement)
        ensures
            r is LanOnly,
    {
        ZoneRequirement::LanOnly
    }

    fn service_kind() -> (r: ServiceKind)
        ensures
            r is LanIpv6,
    {
        ServiceKind::LanIpv6
    }
}

impl ZoneAwareConfig for IPV6RAServiceConfig {
    open spec fn runs_on(self) -> Seq<char> {
        self.iface_name@
    }

    open spec fn stored_under(self) -> Seq<char> {
        self.iface_name@
    }

    fn iface_name(&self) -> (r: &str) {
        &self.iface_name
    }

    fn get_store_key(&self) -> (r: String) {
        self.iface_name.clone()
    }

    fn get_id(&self) -> (r: String) {
        self.iface_name.clone()
    }

    fn zone_requirement() -> (r: ZoneRequirement)
        ensures
            r is LanOnly,
    {
        ZoneRequirement::LanOnly
    }

    fn service_kind() -> (r: ServiceKind)
        ensures
            r is Icmpv6Ra,
    {
        ServiceKind::Icmpv6Ra
    }
}

impl ZoneAwareConfig for NatServiceConfig {
    open spec fn runs_on(self) -> Seq<char> {
        self.iface_name@
    }

    open spec fn stored_under(self) -> Seq<char> {
        self.iface_name@
    }

    fn iface_name(&self) -> (r: &str) {
        &self.iface_name
    }

    fn get_store_key(&self) -> (r: String) {
        self.iface_name.clone()
    }

    fn get_id(&self) -> (r: String) {
        self.iface_name.clone()
    }

    fn zone_requirement() -> (r: ZoneRequirement)
        ensures
            r is WanOrPpp,
    {
        ZoneRequirement::WanOrPpp
    }

    fn service_kind() -> (r: ServiceKind)
        ensures
            r is NAT,
    {
        ServiceKind::NAT
    }
}

/// A PPPoE session is stored under its own name, but runs on the interface
/// that it is attached to.
impl ZoneAwareConfig for PPPDServiceConfig {
    open spec fn runs_on(self) -> Seq<char> {
        self.attach_iface_name@
    }

    open spec fn stored_under(self) -> Seq<char> {
        self.iface_name@
    }

    fn iface_name(&self) -> (r: &str) {
        &self.attach_iface_name
    }

    fn get_store_key(&self) -> (r: String) {
        self.iface_name.clone()
    }

    fn get_id(&self) -> (r: String) {
        self.iface_name.clone()
    }

    fn zone_requirement() -> (r: ZoneRequirement)
        ensures
            r is WanOnly,
    {
        ZoneRequirement::WanOnly
    }

    fn service_kind() -> (r: ServiceKind)
        ensures
            r is PPPoE,
    {
        ServiceKind::PPPoE
    }
}

} // verus!

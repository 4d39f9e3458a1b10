//! The registry of local host names. A name that an enrolled device holds is
//! not given to, nor taken away by, a lease.
use vstd::prelude::*;
use crate::device::EnrolledDevice;
use crate::hostname::config::HostnameRegistryConfig;
use crate::hostname::outside::{
    ascii_form, get_host, held_names, new_host_map, put_host, remove_host, to_ascii, HostMap,
};
use crate::ids::ConfigId;
use crate::net::{Ipv4Addr, MacAddr};
use crate::text::{chars_of, concat2, has_suffix, opt_text, same_text, text_between};

verus! {

/// An address that a lease gave out or took back.
#[derive(Debug)]
pub struct IPv4AssignInfo {
    pub iface_name: String,
    pub mac: MacAddr,
    pub ip: Ipv4Addr,
    pub hostname: Option<String>,
    pub device_id: Option<ConfigId>,
}

#[derive(Debug)]
pub enum IPv4AssignEvent {
    Allocated(IPv4AssignInfo),
    Expired(IPv4AssignInfo),
}

#[derive(Debug)]
pub enum EnrolledDeviceEvent {
    Updated { old: Option<EnrolledDevice>, new: EnrolledDevice },
    Deleted { old: EnrolledDevice },
}

/// The names that are registered: each with its address and whether an
/// enrolled device holds it.
pub type Names = Map<Seq<char>, (u32, bool)>;

/// The names once an enrolled device holds the given one.
pub open spec fn with_enrolled(names: Names, name: Option<Seq<char>>, ip: Ipv4Addr) -> Names {
    match name {
        Some(n) => names.insert(n, (ip.bits, true)),
        None => names,
    }
}

/// The names without the given one.
pub open spec fn without_name(names: Names, name: Option<Seq<char>>) -> Names {
    match name {
        Some(n) => names.remove(n),
        None => names,
    }
}

/// Whether an enrolled device holds the name.
pub open spec fn enrolled(names: Names, name: Seq<char>) -> bool {
    names.contains_key(name) && names[name].1
}

/// The names once a lease asked for the given one.
pub open spec fn with_lease(names: Names, name: Option<Seq<char>>, ip: Ipv4Addr) -> Names {
    match name {
        Some(n) => if enrolled(names, n) {
            names
        } else {
            names.insert(n, (ip.bits, false))
        },
        None => names,
    }
}

/// The names once a lease of the given one ended.
pub open spec fn without_lease(names: Names, name: Option<Seq<char>>) -> Names {
    match name {
        Some(n) => if enrolled(names, n) {
            names
        } else {
            names.remove(n)
        },
        None => names,
    }
}

/// The ASCII form of an optional host name.
pub open spec fn ascii_name(hostname: Option<String>) -> Option<Seq<char>> {
    match hostname {
        Some(h) => ascii_form(h@),
        None => None,
    }
}

/// The names of the devices that were enrolled at the start.
pub open spec fn initial_names(devices: Seq<(String, Ipv4Addr)>) -> Names
    decreases devices.len(),
{
    if devices.len() == 0 {
        Map::empty()
    } else {
        with_enrolled(
            initial_names(devices.drop_last()),
            ascii_form(devices.last().0@),
            devices.last().1,
        )
    }
}

/// The names after a device changed.
pub open spec fn after_device_update(
    names: Names,
    old_device: Option<EnrolledDevice>,
    new_device: EnrolledDevice,
) -> Names {
    let cleared = match old_device {
        Some(d) => without_name(names, ascii_name(d.hostname)),
        None => names,
    };
    match new_device.ipv4 {
        Some(ip) => with_enrolled(cleared, ascii_name(new_device.hostname), ip),
        None => cleared,
    }
}

/// The names after a device event.
pub open spec fn after_device_event(names: Names, event: EnrolledDeviceEvent) -> Names {
    match event {
        EnrolledDeviceEvent::Updated { old: before, new } => after_device_update(
            names,
            before,
            new,
        ),
        EnrolledDeviceEvent::Deleted { old: gone } => without_name(
            names,
            ascii_name(gone.hostname),
        ),
    }
}

/// The names after a lease event.
pub open spec fn after_lease_event(names: Names, event: IPv4AssignEvent) -> Names {
    match event {
        IPv4AssignEvent::Allocated(info) => with_lease(names, ascii_name(info.hostname), info.ip),
        IPv4AssignEvent::Expired(info) => without_lease(names, ascii_name(info.hostname)),
    }
}

/// A name without the dot that may end it.
pub open spec fn without_root(fqdn: Seq<char>) -> Seq<char> {
    if fqdn.len() > 0 && fqdn.last() == '.' {
        fqdn.drop_last()
    } else {
        fqdn
    }
}

/// The part of a name in front of the local domain, where it lies there.
pub open spec fn local_part(fqdn: Seq<char>, suffix: Seq<char>) -> Option<Seq<char>> {
    let name = without_root(fqdn);
    let dotted = "."@ + suffix;
    if suffix.len() == 0 || !dotted.is_suffix_of(name) {
        None
    } else {
        Some(name.take(name.len() - dotted.len()))
    }
}

pub(crate) fn strip_root(fqdn: &str) -> (r: String)
    ensures
        r@ == without_root(fqdn@),
{
    let cs = chars_of(fqdn);
    let n: usize = cs.len();
    if n > 0 && cs[n - 1] == '.' {
        let r = text_between(&cs, 0, n - 1);
        assert(r@ =~= fqdn@.drop_last());
        r
    } else {
        fqdn.to_owned()
    }
}

/// The part of a name in front of the local domain, where it lies there.
fn split_local(fqdn: &str, suffix: &str) -> (r: Option<String>)
    ensures
        opt_text(r) == local_part(fqdn@, suffix@),
{
    if suffix.is_empty() {
        return None;
    }
    let dotted = concat2(".", suffix);
    let name = strip_root(fqdn);
    if !has_suffix(&name, &dotted) {
        return None;
    }
    let cs = chars_of(&name);
    let keep: usize = cs.len() - chars_of(&dotted).len();
    let r = text_between(&cs, 0, keep);
    assert(r@ =~= name@.take(keep as int));
    Some(r)
}

/// The registry: its names and the domain that they belong to.
pub struct HostnameRegistry {
    hostname_map: HostMap,
    config: HostnameRegistryConfig,
}

impl HostnameRegistry {
    pub closed spec fn names(&self) -> Names {
        held_names(self.hostname_map)
    }

    pub closed spec fn lan_suffix(&self) -> Seq<char> {
        self.config.lan_suffix@
    }

    pub fn new(config: HostnameRegistryConfig, initial_devices: Vec<(String, Ipv4Addr)>) -> (r:
        Self)
        ensures
            r.names() == initial_names(initial_devices@),
            r.lan_suffix() == config.lan_suffix@,
    {
        let mut r = HostnameRegistry { hostname_map: new_host_map(), config };
        let n: usize = initial_devices.len();
        let ghost all = initial_devices@;
        assert(all.take(0) =~= Seq::empty());
        for i in 0..n
            invariant
                n == all.len(),
                all == initial_devices@,
                r.names() == initial_names(all.take(i as int)),
                r.lan_suffix() == config.lan_suffix@,
        {
            assert(all.take(i + 1).drop_last() =~= all.take(i as int));
            let ascii = to_ascii(&initial_devices[i].0);
            r.register_enrolled(ascii, initial_devices[i].1);
        }
        assert(all.take(n as int) =~= all);
        r
    }

    /// A registry without names.
    pub fn new_for_test(config: HostnameRegistryConfig) -> (r: Self)
        ensures
            r.names() == Map::<Seq<char>, (u32, bool)>::empty(),
            r.lan_suffix() == config.lan_suffix@,
    {
        Self::new(config, Vec::new())
    }

    /// Gives a name to an enrolled device.
    pub fn register_enrolled(&mut self, ascii: Option<String>, ipv4: Ipv4Addr)
        ensures
            final(self).names() == with_enrolled(old(self).names(), opt_text(ascii), ipv4),
            final(self).lan_suffix() == old(self).lan_suffix(),
    {
        if let Some(name) = ascii {
            put_host(&mut self.hostname_map, name, (ipv4.bits, true));
        }
    }

    /// Takes a name away, whoever holds it.
    pub fn unregister(&mut self, ascii: Option<String>)
        ensures
            final(self).names() == without_name(old(self).names(), opt_text(ascii)),
            final(self).lan_suffix() == old(self).lan_suffix(),
    {
        if let Some(name) = ascii {
            remove_host(&mut self.hostname_map, &name);
        }
    }

    /// Gives a name to a lease, unless an enrolled device holds it.
    pub fn register_lease(&mut self, ascii: Option<String>, ipv4: Ipv4Addr)
        ensures
            final(self).names() == with_lease(old(self).names(), opt_text(ascii), ipv4),
            final(self).lan_suffix() == old(self).lan_suffix(),
    {
        if let Some(name) = ascii {
            let taken: bool = match get_host(&self.hostname_map, &name) {
                Some(existing) => existing.1,
                None => false,
            };
            if !taken {
                put_host(&mut self.hostname_map, name, (ipv4.bits, false));
            }
        }
    }

    /// Takes a name away from a lease, unless an enrolled device holds it.
    pub fn release_lease(&mut self, ascii: Option<String>)
        ensures
            final(self).names() == without_lease(old(self).names(), opt_text(ascii)),
            final(self).lan_suffix() == old(self).lan_suffix(),
    {
        if let Some(name) = ascii {
            let taken: bool = match get_host(&self.hostname_map, &name) {
                Some(existing) => existing.1,
                None => false,
            };
            if !taken {
                remove_host(&mut self.hostname_map, &name);
            }
        }
    }

    pub fn on_device_event(&mut self, event: &EnrolledDeviceEvent)
        ensures
            final(self).names() == after_device_event(old(self).names(), *event),
            final(self).lan_suffix() == old(self).lan_suffix(),
    {
        match event {
            EnrolledDeviceEvent::Updated { old: before, new } => {
                if let Some(device) = before {
                    if let Some(hostname) = &device.hostname {
                        self.unregister(to_ascii(hostname));
                    }
                }
                if let Some(ipv4) = new.ipv4 {
                    if let Some(hostname) = &new.hostname {
                        self.register_enrolled(to_ascii(hostname), ipv4);
                    }
                }
            },
            EnrolledDeviceEvent::Deleted { old: gone } => {
                if let Some(hostname) = &gone.hostname {
                    self.unregister(to_ascii(hostname));
                }
            },
        }
    }

    pub fn on_ipv4_event(&mut self, event: &IPv4AssignEvent)
        ensures
            final(self).names() == after_lease_event(old(self).names(), *event),
            final(self).lan_suffix() == old(self).lan_suffix(),
    {
        match event {
            IPv4AssignEvent::Allocated(info) => {
                if let Some(hostname) = &info.hostname {
                    self.register_lease(to_ascii(hostname), info.ip);
                }
            },
            IPv4AssignEvent::Expired(info) => {
                if let Some(hostname) = &info.hostname {
                    self.release_lease(to_ascii(hostname));
                }
            },
        }
    }

    pub fn update_config(&mut self, config: HostnameRegistryConfig)
        ensures
            final(self).names() == old(self).names(),
            final(self).lan_suffix() == config.lan_suffix@,
    {
        self.config = config;
    }

    /// Whether a name lies below the local domain.
    pub fn is_local_domain(&self, fqdn: &str) -> (r: bool)
        ensures
            r == below_local_domain(fqdn@, self.lan_suffix()),
    {
        match split_local(fqdn, &self.config.lan_suffix) {
            Some(host) => !host.as_str().is_empty(),
            None => false,
        }
    }

    /// Whether a last label stands for the local network: the local domain
    /// itself, or `local`.
    pub fn is_local_tld(&self, tld: &str) -> (r: bool)
        ensures
            r == stands_for_local(tld@, self.lan_suffix()),
    {
        same_text(tld, "local") || (!tld.is_empty() && same_text(tld, &self.config.lan_suffix))
    }

    /// The address registered for a host name.
    pub fn resolve_a_by_hostname(&self, hostname: &str) -> (r: Option<Ipv4Addr>)
        ensures
            r == registered_address(self.names(), ascii_form(hostname@)),
    {
        self.lookup(to_ascii(hostname))
    }

    /// The address registered under a host name in its ASCII form.
    pub fn lookup(&self, ascii: Option<String>) -> (r: Option<Ipv4Addr>)
        ensures
            r == registered_address(self.names(), opt_text(ascii)),
    {
        match ascii {
            Some(name) => match get_host(&self.hostname_map, &name) {
                Some(record) => Some(Ipv4Addr { bits: record.0 }),
                None => None,
            },
            None => None,
        }
    }

    /// The address of a host below the local domain.
    pub fn resolve_a(&self, fqdn: &str) -> (r: Option<Ipv4Addr>)
        ensures
            r == resolved(self.names(), self.lan_suffix(), fqdn@),
    {
        match split_local(fqdn, &self.config.lan_suffix) {
            Some(host) => self.resolve_a_by_hostname(&host),
            None => None,
        }
    }
}

/// The address that a name in its ASCII form is registered with, where it has
/// such a form.
pub open spec fn registered_address(names: Names, ascii: Option<Seq<char>>) -> Option<Ipv4Addr> {
    match ascii {
        Some(name) => if names.contains_key(name) {
            Some(Ipv4Addr { bits: names[name].0 })
        } else {
            None
        },
        None => None,
    }
}

/// Whether a name has a host part in front of the local domain.
pub open spec fn below_local_domain(fqdn: Seq<char>, suffix: Seq<char>) -> bool {
    match local_part(fqdn, suffix) {
        Some(host) => host.len() > 0,
        None => false,
    }
}

/// Whether a last label stands for the local network.
pub open spec fn stands_for_local(tld: Seq<char>, suffix: Seq<char>) -> bool {
    tld == "local"@ || (tld.len() > 0 && tld == suffix)
}

/// The address of a host below the local domain.
pub open spec fn resolved(names: Names, suffix: Seq<char>, fqdn: Seq<char>) -> Option<Ipv4Addr> {
    match local_part(fqdn, suffix) {
        Some(host) => registered_address(names, ascii_form(host)),
        None => None,
    }
}

/// The names after a sequence of lease events.
pub open spec fn after_lease_events(names: Names, events: Seq<IPv4AssignEvent>) -> Names
    decreases events.len(),
{
    if events.len() == 0 {
        names
    } else {
        after_lease_event(after_lease_events(names, events.drop_last()), events.last())
    }
}

/// No sequence of lease events changes a name that an enrolled device holds.
pub proof fn law_enrolled_names_win(names: Names, events: Seq<IPv4AssignEvent>, name: Seq<char>)
    requires
        enrolled(names, name),
    ensures
        enrolled(after_lease_events(names, events), name),
        after_lease_events(names, events)[name] == names[name],
    decreases events.len(),
{
    if events.len() > 0 {
        law_enrolled_names_win(names, events.drop_last(), name);
    }
}

/// The name of a device that was enrolled at the start leads to its address
/// whatever leases are given and end, where no other device had the name. Every
/// plain name has an ASCII form, and capitals make no difference to it.
pub proof fn law_enrolled_device_keeps_its_name(
    devices: Seq<(String, Ipv4Addr)>,
    i: int,
    host: Seq<char>,
    suffix: Seq<char>,
    events: Seq<IPv4AssignEvent>,
)
    requires
        0 <= i < devices.len(),
        ascii_form(host) is Some,
        ascii_form(devices[i].0@) == ascii_form(host),
        forall|j: int|
            0 <= j < devices.len() && j != i ==> ascii_form((#[trigger] devices[j]).0@)
                != ascii_form(host),
        suffix.len() > 0,
        suffix.last() != '.',
    ensures
        resolved(
            after_lease_events(initial_names(devices), events),
            suffix,
            host + "."@ + suffix,
        ) == Some(devices[i].1),
{
    let name = ascii_form(host)->0;
    let fqdn = host + "."@ + suffix;
    lemma_initial_name(devices, i, name);
    law_enrolled_names_win(initial_names(devices), events, name);
    reveal_strlit(".");
    let dotted = "."@ + suffix;
    assert(fqdn.last() == suffix.last());
    assert(fqdn.subrange(fqdn.len() - dotted.len(), fqdn.len() as int) =~= dotted);
    assert(dotted.is_suffix_of(fqdn));
    assert(fqdn.take(fqdn.len() - dotted.len()) =~= host);
}

proof fn lemma_initial_name(devices: Seq<(String, Ipv4Addr)>, i: int, name: Seq<char>)
    requires
        0 <= i < devices.len(),
        ascii_form(devices[i].0@) == Some(name),
        forall|j: int|
            0 <= j < devices.len() && j != i ==> ascii_form((#[trigger] devices[j]).0@) != Some(
                name,
            ),
    ensures
        enrolled(initial_names(devices), name),
        initial_names(devices)[name] == (devices[i].1.bits, true),
    decreases devices.len(),
{
    if i < devices.len() - 1 {
        let front = devices.drop_last();
        assert(front[i] == devices[i]);
        assert forall|j: int| 0 <= j < front.len() && j != i implies ascii_form(
            (#[trigger] front[j]).0@,
        ) != Some(name) by {
            assert(front[j] == devices[j]);
        }
        lemma_initial_name(front, i, name);
        assert(devices[devices.len() - 1] == devices.last());
    }
}

/// A device's name leads to its address once the device is enrolled, whatever
/// was registered before.
pub proof fn law_enrolled_device_resolves(
    names: Names,
    suffix: Seq<char>,
    before: Option<EnrolledDevice>,
    device: EnrolledDevice,
    fqdn: Seq<char>,
)
    requires
        device.ipv4 is Some,
        device.hostname is Some,
        local_part(fqdn, suffix) is Some,
        ascii_form(local_part(fqdn, suffix)->0) is Some,
        ascii_name(device.hostname) == ascii_form(local_part(fqdn, suffix)->0),
    ensures
        resolved(after_device_update(names, before, device), suffix, fqdn) == device.ipv4,
{
}

/// A lease's name leads to its address, unless an enrolled device holds it.
pub proof fn law_lease_resolves(
    names: Names,
    suffix: Seq<char>,
    info: IPv4AssignInfo,
    fqdn: Seq<char>,
)
    requires
        info.hostname is Some,
        local_part(fqdn, suffix) is Some,
        ascii_form(local_part(fqdn, suffix)->0) is Some,
        ascii_name(info.hostname) == ascii_form(local_part(fqdn, suffix)->0),
    ensures
        !enrolled(names, ascii_name(info.hostname)->0) ==> resolved(
            after_lease_event(names, IPv4AssignEvent::Allocated(info)),
            suffix,
            fqdn,
        ) == Some(info.ip),
        enrolled(names, ascii_name(info.hostname)->0) ==> resolved(
            after_lease_event(names, IPv4AssignEvent::Allocated(info)),
            suffix,
            fqdn,
        ) == resolved(names, suffix, fqdn),
{
}

/// The end of a lease undoes its beginning where the name was free before.
pub proof fn law_expiry_undoes_allocation(
    names: Names,
    given: IPv4AssignInfo,
    ended: IPv4AssignInfo,
)
    requires
        ascii_name(given.hostname) == ascii_name(ended.hostname),
        ascii_name(given.hostname) is Some ==> !names.contains_key(ascii_name(given.hostname)->0),
    ensures
        after_lease_event(
            after_lease_event(names, IPv4AssignEvent::Allocated(given)),
            IPv4AssignEvent::Expired(ended),
        ) == names,
{
    if let Some(name) = ascii_name(given.hostname) {
        assert(names.insert(name, (given.ip.bits, false)).remove(name) =~= names);
    }
}

/// A deleted device's name is free.
pub proof fn law_deleted_name_is_free(names: Names, gone: EnrolledDevice)
    requires
        ascii_name(gone.hostname) is Some,
    ensures
        !after_device_event(names, EnrolledDeviceEvent::Deleted { old: gone }).contains_key(
            ascii_name(gone.hostname)->0,
        ),
{
}

/// A name that resolves lies in the local domain.
pub proof fn law_resolved_names_are_local(names: Names, suffix: Seq<char>, fqdn: Seq<char>)
    requires
        resolved(names, suffix, fqdn) is Some,
    ensures
        suffix.len() > 0,
        local_part(fqdn, suffix) is Some,
{
}

/// An event changes nothing but the names that it is about.
pub proof fn law_other_names_stay(
    names: Names,
    lease: IPv4AssignEvent,
    device: EnrolledDeviceEvent,
    name: Seq<char>,
)
    ensures
        ({
            let asked = match lease {
                IPv4AssignEvent::Allocated(info) => info.hostname,
                IPv4AssignEvent::Expired(info) => info.hostname,
            };
            let after = after_lease_event(names, lease);
            ascii_name(asked) != Some(name) ==> after.contains_key(name) == names.contains_key(name)
                && (names.contains_key(name) ==> after[name] == names[name])
        }),
        ({
            let (gone, new) = match device {
                EnrolledDeviceEvent::Updated { old: before, new } => (
                    match before {
                        Some(d) => ascii_name(d.hostname),
                        None => None,
                    },
                    ascii_name(new.hostname),
                ),
                EnrolledDeviceEvent::Deleted { old: before } => (
                    ascii_name(before.hostname),
                    None,
                ),
            };
            let after = after_device_event(names, device);
            gone != Some(name) && new != Some(name) ==> after.contains_key(name)
                == names.contains_key(name) && (names.contains_key(name) ==> after[name]
                == names[name])
        }),
{
}

/// A device that changes its name leaves the old one free; one that loses its
/// address, or its name, is registered no longer. A registered one holds its
/// name.
pub proof fn law_changed_device(names: Names, before: EnrolledDevice, device: EnrolledDevice)
    ensures
        ({
            let after = after_device_event(
                names,
                EnrolledDeviceEvent::Updated { old: Some(before), new: device },
            );
            let kept = device.ipv4 is Some && ascii_name(device.hostname) is Some;
            &&& ascii_name(before.hostname) matches Some(gone) ==> !kept || ascii_name(
                device.hostname,
            ) != Some(gone) ==> !after.contains_key(gone)
            &&& kept ==> after.contains_key(ascii_name(device.hostname)->0)
                && after[ascii_name(device.hostname)->0] == (device.ipv4->0.bits, true)
        }),
{
}

/// A lease that begins is registered under its name with its address, and one
/// that ends is not registered, unless an enrolled device holds the name: then
/// nothing changes.
pub proof fn law_leases_come_and_go(names: Names, info: IPv4AssignInfo, name: Seq<char>)
    requires
        ascii_name(info.hostname) == Some(name),
    ensures
        names.contains_key(name) && names[name].1 ==> after_lease_event(
            names,
            IPv4AssignEvent::Allocated(info),
        ) == names && after_lease_event(names, IPv4AssignEvent::Expired(info)) == names,
        !(names.contains_key(name) && names[name].1) ==> {
            let given = after_lease_event(names, IPv4AssignEvent::Allocated(info));
            let ended = after_lease_event(names, IPv4AssignEvent::Expired(info));
            &&& given.contains_key(name)
            &&& given[name] == (info.ip.bits, false)
            &&& !ended.contains_key(name)
        },
{
}

/// What stands in front of the local domain and its dot is the host, whether a
/// dot ends the name or not; a name that does not end in the local domain has
/// none, and neither has any where there is no local domain.
pub proof fn law_local_part_is_in_front(host: Seq<char>, suffix: Seq<char>, other: Seq<char>)
    requires
        suffix.len() > 0 ==> suffix.last() != '.',
    ensures
        suffix.len() > 0 ==> local_part(host.push('.') + suffix, suffix) == Some(host),
        suffix.len() > 0 ==> local_part((host.push('.') + suffix).push('.'), suffix) == Some(host),
        suffix.len() == 0 ==> local_part(other, suffix) is None,
        (other.len() == 0 || other.last() != '.') && !(seq!['.'] + suffix).is_suffix_of(other)
            ==> local_part(other, suffix) is None,
{
    reveal_strlit(".");
    let dotted = "."@ + suffix;
    assert(dotted =~= seq!['.'] + suffix);
    if suffix.len() > 0 {
        let name = host.push('.') + suffix;
        assert(name.last() == suffix.last());
        assert(name.push('.').drop_last() =~= name);
        assert(name.subrange(name.len() - dotted.len(), name.len() as int) =~= dotted);
        assert(name.take(name.len() - dotted.len()) =~= host);
    }
}

/// Of several devices with one name at the start the last one has it, and a
/// name that no device has is not registered.
pub proof fn law_devices_at_the_start(
    devices: Seq<(String, Ipv4Addr)>,
    i: int,
    name: Seq<char>,
)
    requires
        -1 <= i < devices.len(),
        i >= 0 ==> ascii_form(devices[i].0@) == Some(name),
        forall|j: int|
            i < j < devices.len() ==> ascii_form((#[trigger] devices[j]).0@) != Some(name),
    ensures
        i >= 0 ==> initial_names(devices).contains_key(name) && initial_names(devices)[name] == (
            devices[i].1.bits,
            true,
        ),
        i < 0 ==> !initial_names(devices).contains_key(name),
    decreases devices.len(),
{
    if devices.len() > 0 && i < devices.len() - 1 {
        let front = devices.drop_last();
        if i >= 0 {
            assert(front[i] == devices[i]);
        }
        assert forall|j: int| i < j < front.len() implies ascii_form((#[trigger] front[j]).0@)
            != Some(name) by {
            assert(front[j] == devices[j]);
        }
        law_devices_at_the_start(front, i, name);
        assert(devices[devices.len() - 1] == devices.last());
    }
}

/// A name below the local domain leads to the address that its host is
/// registered with, and to none where the host is not registered.
pub proof fn law_registered_address_is_found(
    names: Names,
    suffix: Seq<char>,
    host: Seq<char>,
    name: Seq<char>,
)
    requires
        suffix.len() > 0,
        suffix.last() != '.',
        ascii_form(host) == Some(name),
    ensures
        names.contains_key(name) ==> (resolved(names, suffix, host.push('.') + suffix) matches Some(
            ip,
        ) && ip.bits == names[name].0),
        !names.contains_key(name) ==> resolved(names, suffix, host.push('.') + suffix) is None,
{
    law_local_part_is_in_front(host, suffix, host);
}

/// A registered name gives its address, and no other name gives one.
pub proof fn law_only_registered_names_have_addresses(names: Names, name: Seq<char>)
    ensures
        registered_address(names, None) is None,
        names.contains_key(name) ==> (registered_address(names, Some(name)) matches Some(ip)
            && ip.bits == names[name].0),
        !names.contains_key(name) ==> registered_address(names, Some(name)) is None,
{
}

/// What lies below the local domain has a host in front of it; the domain
/// itself does not lie below itself, and nothing does where there is none.
pub proof fn law_below_the_local_domain(host: Seq<char>, suffix: Seq<char>)
    requires
        suffix.len() > 0 ==> suffix.last() != '.',
    ensures
        suffix.len() > 0 && host.len() > 0 ==> below_local_domain(host.push('.') + suffix, suffix),
        !below_local_domain(suffix, suffix),
        !below_local_domain(host, Seq::empty()),
        suffix.len() > 0 ==> !below_local_domain(seq!['.'] + suffix, suffix),
{
    law_local_part_is_in_front(host, suffix, suffix);
    reveal_strlit(".");
    let dotted = "."@ + suffix;
    if suffix.len() > 0 {
        let name = seq!['.'] + suffix;
        assert(name.last() == suffix.last());
        assert(name.take(name.len() - dotted.len()).len() == 0);
    }
}

/// The local domain stands for the local network, and so does `local`, whatever
/// the local domain is; nothing else does.
pub proof fn law_local_labels(tld: Seq<char>, suffix: Seq<char>)
    ensures
        stands_for_local("local"@, suffix),
        suffix.len() > 0 ==> stands_for_local(suffix, suffix),
        tld != "local"@ && tld != suffix ==> !stands_for_local(tld, suffix),
        !stands_for_local(Seq::empty(), suffix),
{
    reveal_strlit("local");
    assert("local"@.len() == 5);
}

} // verus!

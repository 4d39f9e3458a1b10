//! Bringing NAT up on an interface: the steps, in order, that load the two
//! programs, give them their settings, let them share their maps and hang
//! them into the packet path. Whoever carries out a step reports how it went.
use vstd::prelude::*;
use crate::natting::config::NatConfig;

verus! {

/// A map that is shared with the rest of the system under a fixed path.
#[derive(Debug, Clone, Copy, PartialEq, Eq, Structural)]
pub enum PinnedMap {
    TcPipeExitsWanIngress,
    TcPipeExitsWanEgress,
    XdpPipeRootProgs,
    XdpPipeExitsLan,
    XdpPipeExitsWan,
    XdpLanPipeRootProgs,
    WanIpBinding,
    Nat6StaticMappings,
    Nat4StMap,
    NatConnMetricEvents,
}

/// A map that the second program takes over from the first.
#[derive(Debug, Clone, Copy, PartialEq, Eq, Structural)]
pub enum RuntimeMap {
    Nat4DynMap,
    Nat4MappingTimer,
    Nat4TcpFreePorts,
    Nat4UdpFreePorts,
    Nat4IcmpFreePorts,
    Nat6ConnTimer,
}

/// A queue of free ports.
#[derive(Debug, Clone, Copy, PartialEq, Eq, Structural)]
pub enum PortQueue {
    Tcp,
    Udp,
    Icmp,
}

/// The port ranges that a program is loaded with.
#[derive(Debug, Clone, Copy, PartialEq, Eq, Structural)]
pub struct PortSettings {
    pub tcp_range_start: u16,
    pub tcp_range_end: u16,
    pub udp_range_start: u16,
    pub udp_range_end: u16,
    pub icmp_range_start: u16,
    pub icmp_range_end: u16,
}

/// One step of bringing NAT up.
#[derive(Debug, Clone, Copy, PartialEq, Eq, Structural)]
pub enum NatStep {
    EnsureRoots { ifindex: u32, has_mac: bool },
    OpenTc,
    ConfigureTc { current_l3_offset: u32, ports: PortSettings },
    PinTc(PinnedMap),
    LoadTc,
    SeedPorts { queue: PortQueue, start: u16, end: u16 },
    OpenXdp,
    PinXdp(PinnedMap),
    ShareWithXdp(RuntimeMap),
    ConfigureXdp { current_ifindex: u32, ports: PortSettings },
    LoadXdp,
    InjectTc { ifindex: u32 },
    InjectXdp { ifindex: u32 },
}

pub open spec fn port_settings(config: NatConfig) -> PortSettings {
    PortSettings {
        tcp_range_start: config.tcp_range.start,
        tcp_range_end: config.tcp_range.end,
        udp_range_start: config.udp_range.start,
        udp_range_end: config.udp_range.end,
        icmp_range_start: config.icmp_in_range.start,
        icmp_range_end: config.icmp_in_range.end,
    }
}

/// Where the network header starts: behind an Ethernet header, or at once.
pub open spec fn l3_offset(has_mac: bool) -> u32 {
    if has_mac {
        14
    } else {
        0
    }
}

/// The steps that load the first program.
pub open spec fn tc_steps(ifindex: u32, has_mac: bool, config: NatConfig) -> Seq<NatStep> {
    seq![
        NatStep::EnsureRoots { ifindex, has_mac },
        NatStep::OpenTc,
        NatStep::ConfigureTc {
            current_l3_offset: l3_offset(has_mac),
            ports: port_settings(config),
        },
        NatStep::PinTc(PinnedMap::TcPipeExitsWanIngress),
        NatStep::PinTc(PinnedMap::TcPipeExitsWanEgress),
        NatStep::PinTc(PinnedMap::WanIpBinding),
        NatStep::PinTc(PinnedMap::Nat6StaticMappings),
        NatStep::PinTc(PinnedMap::Nat4StMap),
        NatStep::PinTc(PinnedMap::NatConnMetricEvents),
        NatStep::LoadTc,
        NatStep::SeedPorts {
            queue: PortQueue::Tcp,
            start: config.tcp_range.start,
            end: config.tcp_range.end,
        },
        NatStep::SeedPorts {
            queue: PortQueue::Udp,
            start: config.udp_range.start,
            end: config.udp_range.end,
        },
        NatStep::SeedPorts {
            queue: PortQueue::Icmp,
            start: config.icmp_in_range.start,
            end: config.icmp_in_range.end,
        },
    ]
}

/// The steps that load the second program, which works on the first one's maps.
pub open spec fn xdp_steps(ifindex: u32, config: NatConfig) -> Seq<NatStep> {
    seq![
        NatStep::OpenXdp,
        NatStep::PinXdp(PinnedMap::XdpPipeRootProgs),
        NatStep::PinXdp(PinnedMap::XdpPipeExitsLan),
        NatStep::PinXdp(PinnedMap::XdpPipeExitsWan),
        NatStep::PinXdp(PinnedMap::XdpLanPipeRootProgs),
        NatStep::PinXdp(PinnedMap::WanIpBinding),
        NatStep::PinXdp(PinnedMap::Nat6StaticMappings),
        NatStep::PinXdp(PinnedMap::Nat4StMap),
        NatStep::PinXdp(PinnedMap::NatConnMetricEvents),
        NatStep::ShareWithXdp(RuntimeMap::Nat4DynMap),
        NatStep::ShareWithXdp(RuntimeMap::Nat4MappingTimer),
        NatStep::ShareWithXdp(RuntimeMap::Nat4TcpFreePorts),
        NatStep::ShareWithXdp(RuntimeMap::Nat4UdpFreePorts),
        NatStep::ShareWithXdp(RuntimeMap::Nat4IcmpFreePorts),
        NatStep::ShareWithXdp(RuntimeMap::Nat6ConnTimer),
        NatStep::ConfigureXdp { current_ifindex: ifindex, ports: port_settings(config) },
        NatStep::LoadXdp,
    ]
}

/// All steps for both programs.
pub open spec fn unified_steps(ifindex: u32, has_mac: bool, config: NatConfig) -> Seq<NatStep> {
    tc_steps(ifindex, has_mac, config) + xdp_steps(ifindex, config) + seq![
        NatStep::InjectTc { ifindex },
        NatStep::InjectXdp { ifindex },
    ]
}

/// All steps for the first program alone.
pub open spec fn tc_only_steps(ifindex: u32, has_mac: bool, config: NatConfig) -> Seq<NatStep> {
    tc_steps(ifindex, has_mac, config) + seq![NatStep::InjectTc { ifindex }]
}

/// The first program in place on an interface.
#[derive(Debug, PartialEq, Eq)]
pub struct TcNatHandle {
    pub ifindex: u32,
}

/// The second program in place on an interface.
#[derive(Debug, PartialEq, Eq)]
pub struct XdpNatHandle {
    pub ifindex: u32,
}

/// What is in place on an interface.
#[derive(Debug, PartialEq, Eq)]
pub struct NatHandle {
    pub tc: Option<TcNatHandle>,
    pub xdp: Option<XdpNatHandle>,
}

/// How far a setup has come, and whether a step went wrong, after a report. A
/// queue that takes no more ports is no failure.
pub open spec fn after_report(plan: Seq<NatStep>, state: (int, bool), ok: bool) -> (int, bool) {
    let (at, failed) = state;
    if failed || at >= plan.len() {
        state
    } else if ok || plan[at] is SeedPorts {
        (at + 1, false)
    } else {
        (at, true)
    }
}

/// How far a setup has come, and whether a step went wrong, after reports on
/// the steps from the first on.
pub open spec fn after_reports(plan: Seq<NatStep>, oks: Seq<bool>) -> (int, bool)
    decreases oks.len(),
{
    if oks.len() == 0 {
        (0, false)
    } else {
        after_report(plan, after_reports(plan, oks.drop_last()), oks.last())
    }
}

/// Bringing NAT up, as far as it has come.
pub struct NatSetup {
    ifindex: u32,
    with_xdp: bool,
    steps: Vec<NatStep>,
    done: usize,
    failed: bool,
}

impl NatSetup {
    #[verifier::type_invariant]
    closed spec fn in_bounds(&self) -> bool {
        self.done <= self.steps@.len() && (self.failed ==> self.done < self.steps@.len())
    }

    pub closed spec fn target(&self) -> u32 {
        self.ifindex
    }

    pub closed spec fn both(&self) -> bool {
        self.with_xdp
    }

    /// All the steps.
    pub closed spec fn plan(&self) -> Seq<NatStep> {
        self.steps@
    }

    /// How many steps are behind.
    pub closed spec fn progress(&self) -> int {
        self.done as int
    }

    /// Whether a step went wrong.
    pub closed spec fn has_failed(&self) -> bool {
        self.failed
    }

    /// The step to carry out next: none after a failure or at the end.
    pub fn next_step(&self) -> (r: Option<NatStep>)
        ensures
            r == if !self.has_failed() && self.progress() < self.plan().len() {
                Some(self.plan()[self.progress()])
            } else {
                None
            },
            0 <= self.progress() <= self.plan().len(),
    {
        proof {
            use_type_invariant(self);
        }
        if self.failed || self.done >= self.steps.len() {
            None
        } else {
            Some(self.steps[self.done])
        }
    }

    /// Takes note of how the step went. A step that goes wrong ends the setup,
    /// but for the filling of a queue: a queue that takes no more ports is
    /// left as full as it is.
    pub fn report(&mut self, ok: bool)
        ensures
            final(self).target() == old(self).target(),
            final(self).both() == old(self).both(),
            final(self).plan() == old(self).plan(),
            ({
                let open = !old(self).has_failed() && old(self).progress() < old(
                    self,
                ).plan().len();
                let passed = ok || old(self).plan()[old(self).progress()] is SeedPorts;
                &&& final(self).progress() == old(self).progress() + if open && passed {
                    1int
                } else {
                    0
                }
                &&& final(self).has_failed() == (old(self).has_failed() || (open && !passed))
            }),
            (final(self).progress(), final(self).has_failed()) == after_report(
                old(self).plan(),
                (old(self).progress(), old(self).has_failed()),
                ok,
            ),
    {
        proof {
            use_type_invariant(&*self);
        }
        if !self.failed && self.done < self.steps.len() {
            if ok || matches!(self.steps[self.done], NatStep::SeedPorts { .. }) {
                self.done = self.done + 1;
            } else {
                self.failed = true;
            }
        }
    }

    /// What is in place once every step is behind; else the step that is owed
    /// or went wrong.
    pub fn finish(self) -> (r: Result<NatHandle, NatStep>)
        ensures
            r == if self.progress() == self.plan().len() {
                Ok::<NatHandle, NatStep>(
                    NatHandle {
                        tc: Some(TcNatHandle { ifindex: self.target() }),
                        xdp: if self.both() {
                            Some(XdpNatHandle { ifindex: self.target() })
                        } else {
                            None
                        },
                    },
                )
            } else {
                Err::<NatHandle, NatStep>(self.plan()[self.progress()])
            },
    {
        proof {
            use_type_invariant(&self);
        }
        if self.done < self.steps.len() {
            return Err(self.steps[self.done]);
        }
        Ok(
            NatHandle {
                tc: Some(TcNatHandle { ifindex: self.ifindex }),
                xdp: if self.with_xdp {
                    Some(XdpNatHandle { ifindex: self.ifindex })
                } else {
                    None
                },
            },
        )
    }
}

fn settings_of(config: &NatConfig) -> (r: PortSettings)
    ensures
        r == port_settings(*config),
{
    PortSettings {
        tcp_range_start: config.tcp_range.start,
        tcp_range_end: config.tcp_range.end,
        udp_range_start: config.udp_range.start,
        udp_range_end: config.udp_range.end,
        icmp_range_start: config.icmp_in_range.start,
        icmp_range_end: config.icmp_in_range.end,
    }
}

fn plan_tc(ifindex: u32, has_mac: bool, config: &NatConfig) -> (r: Vec<NatStep>)
    ensures
        r@ == tc_steps(ifindex, has_mac, *config),
{
    let current_l3_offset: u32 = if has_mac {
        14
    } else {
        0
    };
    let steps = vec![
        NatStep::EnsureRoots { ifindex, has_mac },
        NatStep::OpenTc,
        NatStep::ConfigureTc { current_l3_offset, ports: settings_of(config) },
        NatStep::PinTc(PinnedMap::TcPipeExitsWanIngress),
        NatStep::PinTc(PinnedMap::TcPipeExitsWanEgress),
        NatStep::PinTc(PinnedMap::WanIpBinding),
        NatStep::PinTc(PinnedMap::Nat6StaticMappings),
        NatStep::PinTc(PinnedMap::Nat4StMap),
        NatStep::PinTc(PinnedMap::NatConnMetricEvents),
        NatStep::LoadTc,
        NatStep::SeedPorts {
            queue: PortQueue::Tcp,
            start: config.tcp_range.start,
            end: config.tcp_range.end,
        },
        NatStep::SeedPorts {
            queue: PortQueue::Udp,
            start: config.udp_range.start,
            end: config.udp_range.end,
        },
        NatStep::SeedPorts {
            queue: PortQueue::Icmp,
            start: config.icmp_in_range.start,
            end: config.icmp_in_range.end,
        },
    ];
    assert(steps@ =~= tc_steps(ifindex, has_mac, *config));
    steps
}

fn plan_xdp(ifindex: u32, config: &NatConfig) -> (r: Vec<NatStep>)
    ensures
        r@ == xdp_steps(ifindex, *config),
{
    let steps = vec![
        NatStep::OpenXdp,
        NatStep::PinXdp(PinnedMap::XdpPipeRootProgs),
        NatStep::PinXdp(PinnedMap::XdpPipeExitsLan),
        NatStep::PinXdp(PinnedMap::XdpPipeExitsWan),
        NatStep::PinXdp(PinnedMap::XdpLanPipeRootProgs),
        NatStep::PinXdp(PinnedMap::WanIpBinding),
        NatStep::PinXdp(PinnedMap::Nat6StaticMappings),
        NatStep::PinXdp(PinnedMap::Nat4StMap),
        NatStep::PinXdp(PinnedMap::NatConnMetricEvents),
        NatStep::ShareWithXdp(RuntimeMap::Nat4DynMap),
        NatStep::ShareWithXdp(RuntimeMap::Nat4MappingTimer),
        NatStep::ShareWithXdp(RuntimeMap::Nat4TcpFreePorts),
        NatStep::ShareWithXdp(RuntimeMap::Nat4UdpFreePorts),
        NatStep::ShareWithXdp(RuntimeMap::Nat4IcmpFreePorts),
        NatStep::ShareWithXdp(RuntimeMap::Nat6ConnTimer),
        NatStep::ConfigureXdp { current_ifindex: ifindex, ports: settings_of(config) },
        NatStep::LoadXdp,
    ];
    assert(steps@ =~= xdp_steps(ifindex, *config));
    steps
}

fn init_nat_xdp_unified(ifindex: u32, has_mac: bool, config: &NatConfig) -> (r: Vec<NatStep>)
    ensures
        r@ == unified_steps(ifindex, has_mac, *config),
{
    let mut steps = plan_tc(ifindex, has_mac, config);
    let mut xdp = plan_xdp(ifindex, config);
    steps.append(&mut xdp);
    steps.push(NatStep::InjectTc { ifindex });
    steps.push(NatStep::InjectXdp { ifindex });
    assert(steps@ =~= unified_steps(ifindex, has_mac, *config));
    steps
}

/// Starts bringing up both programs.
pub fn init_nat(ifindex: u32, has_mac: bool, config: &NatConfig) -> (r: NatSetup)
    ensures
        r.target() == ifindex,
        r.both(),
        r.plan() == unified_steps(ifindex, has_mac, *config),
        r.progress() == 0,
        !r.has_failed(),
{
    NatSetup {
        ifindex,
        with_xdp: true,
        steps: init_nat_xdp_unified(ifindex, has_mac, config),
        done: 0,
        failed: false,
    }
}

/// Starts bringing up the first program alone.
pub fn attach_tc_nat(ifindex: u32, has_mac: bool, config: &NatConfig) -> (r: NatSetup)
    ensures
        r.target() == ifindex,
        !r.both(),
        r.plan() == tc_only_steps(ifindex, has_mac, *config),
        r.progress() == 0,
        !r.has_failed(),
{
    let mut steps = plan_tc(ifindex, has_mac, config);
    steps.push(NatStep::InjectTc { ifindex });
    assert(steps@ =~= tc_only_steps(ifindex, has_mac, *config));
    NatSetup { ifindex, with_xdp: false, steps, done: 0, failed: false }
}

/// The ports put into a queue, lowest first, both ends included.
pub open spec fn seeded_ports(start: u16, end: u16) -> Seq<u16> {
    if start <= end {
        Seq::new((end - start + 1) as nat, |i: int| (start + i) as u16)
    } else {
        Seq::empty()
    }
}

pub fn seed_port_queue(start: u16, end: u16) -> (r: Vec<u16>)
    ensures
        r@ == seeded_ports(start, end),
{
    let mut ports: Vec<u16> = Vec::new();
    let mut next: u32 = start as u32;
    while next <= end as u32
        invariant
            start <= next,
            next <= end + 1 || next == start,
            ports@.len() == next - start,
            forall|i: int| 0 <= i < ports@.len() ==> ports@[i] == start + i,
        decreases end + 1 - next,
    {
        ports.push(next as u16);
        next = next + 1;
    }
    assert(ports@ =~= seeded_ports(start, end));
    ports
}

/// Whether a step comes somewhere before position `at`.
pub open spec fn done_before(steps: Seq<NatStep>, step: NatStep, at: int) -> bool {
    exists|i: int| 0 <= i < at && i < steps.len() && #[trigger] steps[i] == step
}

/// The second program gets a map of the first only after the first is loaded
/// and before it is loaded itself, and each program is in the packet path
/// only after both are loaded.
pub proof fn law_nat_step_order(ifindex: u32, has_mac: bool, config: NatConfig, at: int)
    requires
        0 <= at < unified_steps(ifindex, has_mac, config).len(),
    ensures
        ({
            let steps = unified_steps(ifindex, has_mac, config);
            &&& steps[at] is ShareWithXdp ==> done_before(steps, NatStep::LoadTc, at)
                && done_before(steps, NatStep::OpenXdp, at) && !done_before(
                steps,
                NatStep::LoadXdp,
                at,
            )
            &&& steps[at] is SeedPorts ==> done_before(steps, NatStep::LoadTc, at)
            &&& steps[at] is InjectTc || steps[at] is InjectXdp ==> done_before(
                steps,
                NatStep::LoadTc,
                at,
            ) && done_before(steps, NatStep::LoadXdp, at)
            &&& steps[at] is LoadTc ==> done_before(
                steps,
                NatStep::ConfigureTc {
                    current_l3_offset: l3_offset(has_mac),
                    ports: port_settings(config),
                },
                at,
            )
            &&& steps[at] is LoadXdp ==> done_before(
                steps,
                NatStep::ConfigureXdp { current_ifindex: ifindex, ports: port_settings(config) },
                at,
            )
        }),
{
    let steps = unified_steps(ifindex, has_mac, config);
    assert(steps[1] is OpenTc);
    assert(steps[2] is ConfigureTc);
    assert(steps[9] is LoadTc);
    assert(steps[13] is OpenXdp);
    assert(steps[28] is ConfigureXdp);
    assert(steps[29] is LoadXdp);
}

/// The range of a queue among the ports that a program is loaded with.
pub open spec fn queue_range(queue: PortQueue, ports: PortSettings) -> (u16, u16) {
    match queue {
        PortQueue::Tcp => (ports.tcp_range_start, ports.tcp_range_end),
        PortQueue::Udp => (ports.udp_range_start, ports.udp_range_end),
        PortQueue::Icmp => (ports.icmp_range_start, ports.icmp_range_end),
    }
}

/// Whether one of the steps fills a queue.
pub open spec fn is_seeded(steps: Seq<NatStep>, queue: PortQueue) -> bool {
    exists|i: int|
        0 <= i < steps.len() && ((#[trigger] steps[i]) matches NatStep::SeedPorts { queue: q, .. }
            && q == queue)
}

/// Both programs are loaded with the same port ranges, and every queue is
/// filled, from its range among those.
pub proof fn law_programs_agree(ifindex: u32, has_mac: bool, config: NatConfig)
    ensures
        ({
            let steps = unified_steps(ifindex, has_mac, config);
            &&& forall|i: int|
                0 <= i < steps.len() ==> {
                    &&& (#[trigger] steps[i]) matches NatStep::ConfigureTc { ports, .. } ==> ports
                        == port_settings(config)
                    &&& steps[i] matches NatStep::ConfigureXdp { ports, .. } ==> ports
                        == port_settings(config)
                    &&& steps[i] matches NatStep::SeedPorts { queue, start, end } ==> (start, end)
                        == queue_range(queue, port_settings(config))
                }
            &&& forall|queue: PortQueue| #[trigger] is_seeded(steps, queue)
        }),
{
    let steps = unified_steps(ifindex, has_mac, config);
    assert forall|queue: PortQueue| #[trigger] is_seeded(steps, queue) by {
        let at: int = match queue {
            PortQueue::Tcp => 10,
            PortQueue::Udp => 11,
            PortQueue::Icmp => 12,
        };
        assert(steps[at] matches NatStep::SeedPorts { queue: q, .. } && q == queue);
    }
}

/// Where every step but the filling of queues goes well, a setup comes as far
/// as it was reported on, and to its end with the last step.
pub proof fn law_setup_goes_on(plan: Seq<NatStep>, oks: Seq<bool>)
    requires
        oks.len() <= plan.len(),
        forall|k: int| 0 <= k < oks.len() ==> #[trigger] oks[k] || plan[k] is SeedPorts,
    ensures
        after_reports(plan, oks) == (oks.len() as int, false),
    decreases oks.len(),
{
    if oks.len() > 0 {
        let less = oks.drop_last();
        assert forall|k: int| 0 <= k < less.len() implies #[trigger] less[k]
            || plan[k] is SeedPorts by {
            assert(less[k] == oks[k]);
        }
        law_setup_goes_on(plan, less);
        assert(oks[oks.len() - 1] == oks.last());
    }
}

/// The first step that goes wrong, the filling of queues apart, ends a setup
/// for good, whatever is reported after it.
pub proof fn law_setup_ends_at_a_failure(plan: Seq<NatStep>, oks: Seq<bool>, i: int)
    requires
        0 <= i < oks.len(),
        i < plan.len(),
        !oks[i],
        !(plan[i] is SeedPorts),
        forall|k: int| 0 <= k < i ==> #[trigger] oks[k] || plan[k] is SeedPorts,
    ensures
        after_reports(plan, oks) == (i, true),
    decreases oks.len(),
{
    let less = oks.drop_last();
    if i == oks.len() - 1 {
        assert forall|k: int| 0 <= k < less.len() implies #[trigger] less[k]
            || plan[k] is SeedPorts by {
            assert(less[k] == oks[k]);
        }
        law_setup_goes_on(plan, less);
    } else {
        assert(less[i] == oks[i]);
        assert forall|k: int| 0 <= k < i implies #[trigger] less[k] || plan[k] is SeedPorts by {
            assert(less[k] == oks[k]);
        }
        law_setup_ends_at_a_failure(plan, less, i);
    }
}

/// A queue is filled with every port of its range, ends included, each once and
/// the lowest first.
pub proof fn law_ports_of_a_queue(start: u16, end: u16, port: u16)
    ensures
        seeded_ports(start, end).contains(port) <==> start <= port <= end,
        forall|i: int, j: int|
            0 <= i < j < seeded_ports(start, end).len() ==> (#[trigger] seeded_ports(start, end)[i])
                < (#[trigger] seeded_ports(start, end)[j]),
{
    let ports = seeded_ports(start, end);
    if start <= port <= end {
        assert(ports[port - start] == port);
    }
}

/// The second program takes over every map that the first one fills, and both
/// share the maps of addresses, static mappings and measurements with the rest
/// of the system.
pub proof fn law_programs_share_their_maps(
    ifindex: u32,
    has_mac: bool,
    config: NatConfig,
    map: RuntimeMap,
)
    ensures
        ({
            let steps = unified_steps(ifindex, has_mac, config);
            &&& steps.contains(NatStep::ShareWithXdp(map))
            &&& steps.contains(NatStep::PinTc(PinnedMap::WanIpBinding))
            &&& steps.contains(NatStep::PinXdp(PinnedMap::WanIpBinding))
            &&& steps.contains(NatStep::PinTc(PinnedMap::Nat4StMap))
            &&& steps.contains(NatStep::PinXdp(PinnedMap::Nat4StMap))
            &&& steps.contains(NatStep::PinTc(PinnedMap::Nat6StaticMappings))
            &&& steps.contains(NatStep::PinXdp(PinnedMap::Nat6StaticMappings))
            &&& steps.contains(NatStep::PinTc(PinnedMap::NatConnMetricEvents))
            &&& steps.contains(NatStep::PinXdp(PinnedMap::NatConnMetricEvents))
            &&& steps.contains(NatStep::PinTc(PinnedMap::TcPipeExitsWanIngress))
            &&& steps.contains(NatStep::PinTc(PinnedMap::TcPipeExitsWanEgress))
            &&& steps.contains(NatStep::PinXdp(PinnedMap::XdpPipeRootProgs))
            &&& steps.contains(NatStep::PinXdp(PinnedMap::XdpPipeExitsLan))
            &&& steps.contains(NatStep::PinXdp(PinnedMap::XdpPipeExitsWan))
            &&& steps.contains(NatStep::PinXdp(PinnedMap::XdpLanPipeRootProgs))
        }),
{
    let steps = unified_steps(ifindex, has_mac, config);
    let at: int = match map {
        RuntimeMap::Nat4DynMap => 22,
        RuntimeMap::Nat4MappingTimer => 23,
        RuntimeMap::Nat4TcpFreePorts => 24,
        RuntimeMap::Nat4UdpFreePorts => 25,
        RuntimeMap::Nat4IcmpFreePorts => 26,
        RuntimeMap::Nat6ConnTimer => 27,
    };
    assert(steps[at] == NatStep::ShareWithXdp(map));
    assert(steps[3] == NatStep::PinTc(PinnedMap::TcPipeExitsWanIngress));
    assert(steps[4] == NatStep::PinTc(PinnedMap::TcPipeExitsWanEgress));
    assert(steps[5] == NatStep::PinTc(PinnedMap::WanIpBinding));
    assert(steps[6] == NatStep::PinTc(PinnedMap::Nat6StaticMappings));
    assert(steps[7] == NatStep::PinTc(PinnedMap::Nat4StMap));
    assert(steps[8] == NatStep::PinTc(PinnedMap::NatConnMetricEvents));
    assert(steps[14] == NatStep::PinXdp(PinnedMap::XdpPipeRootProgs));
    assert(steps[15] == NatStep::PinXdp(PinnedMap::XdpPipeExitsLan));
    assert(steps[16] == NatStep::PinXdp(PinnedMap::XdpPipeExitsWan));
    assert(steps[17] == NatStep::PinXdp(PinnedMap::XdpLanPipeRootProgs));
    assert(steps[18] == NatStep::PinXdp(PinnedMap::WanIpBinding));
    assert(steps[19] == NatStep::PinXdp(PinnedMap::Nat6StaticMappings));
    assert(steps[20] == NatStep::PinXdp(PinnedMap::Nat4StMap));
    assert(steps[21] == NatStep::PinXdp(PinnedMap::NatConnMetricEvents));
}

/// The programs are loaded with the ranges of the configuration, protocol by
/// protocol, and the first one looks behind an Ethernet header exactly where
/// there is one.
pub proof fn law_settings_of_the_programs(has_mac: bool, config: NatConfig)
    ensures
        ({
            let p = port_settings(config);
            &&& (p.tcp_range_start, p.tcp_range_end) == (
                config.tcp_range.start,
                config.tcp_range.end,
            )
            &&& (p.udp_range_start, p.udp_range_end) == (
                config.udp_range.start,
                config.udp_range.end,
            )
            &&& (p.icmp_range_start, p.icmp_range_end) == (
                config.icmp_in_range.start,
                config.icmp_in_range.end,
            )
        }),
        has_mac ==> l3_offset(has_mac) == 14,
        !has_mac ==> l3_offset(has_mac) == 0,
{
}

} // verus!

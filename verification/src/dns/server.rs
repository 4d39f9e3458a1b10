//! The resolvers of all flows: which of them has to be started, changed or
//! left alone when a flow should be answered differently.
use std::collections::HashMap;
use vstd::prelude::*;
use crate::dns::check::{
    convert_record_type, looked_up, CheckDnsReq, LandscapeDnsRecordType,
};
use crate::dns::error::{DnsError, DnsErrorView, FlowId};
use crate::dns::planner::{
    after_plan, refresh_plan, DnsRefreshPlan, DnsRefreshPlanner, FlowDnsAppliedState,
    FlowState, HandlerRefreshPlan,
};
use crate::dns::runtime::{CacheRuntimeConfig, DohRuntimeConfig, FlowDnsDesiredState};
use crate::dns::types::RecordType;

verus! {

broadcast use vstd::std_specs::hash::group_hash_axioms;

/// Where a provider of the names comes from under which the router can be
/// reached over HTTPS.
pub trait DohAdvertiseProvider {
    fn advertise_domains(&self) -> Vec<String>;
}

/// The resolver of one flow: whether it runs, and what it is like.
#[derive(Debug)]
pub struct FlowServerEntry {
    pub running: bool,
    pub applied_state: Option<FlowDnsAppliedState>,
}

/// What the resolver of one flow is like.
pub struct FlowEntryView {
    pub running: bool,
    pub applied: Option<FlowState>,
}

impl View for FlowServerEntry {
    type V = FlowEntryView;

    open spec fn view(&self) -> FlowEntryView {
        FlowEntryView {
            running: self.running,
            applied: match self.applied_state {
                Some(s) => Some(s@),
                None => None,
            },
        }
    }
}

/// What is to be done for a flow.
#[derive(Debug, Clone, Copy, PartialEq, Eq)]
pub enum FlowAction {
    /// Nothing.
    Nothing,
    /// Build a resolver and start its listener.
    Start,
    /// Let the running resolver take over a change.
    Change(HandlerRefreshPlan),
    /// Let the running resolver take over a change, if there is one, and start
    /// a new listener for it.
    Relisten(Option<HandlerRefreshPlan>),
}

/// What is to be done for a flow.
pub open spec fn flow_action(entry: FlowEntryView, desired: FlowState) -> FlowAction {
    if !entry.running {
        FlowAction::Start
    } else {
        match refresh_plan(entry.applied, desired) {
            DnsRefreshPlan::Noop => FlowAction::Nothing,
            DnsRefreshPlan::ApplyHandler(plan) => FlowAction::Change(plan),
            DnsRefreshPlan::RestartListener { handler_plan } => FlowAction::Relisten(handler_plan),
        }
    }
}

/// The resolver once the action was carried out; `listening` says whether the
/// listener that the action starts came up.
pub open spec fn after_action(
    entry: FlowEntryView,
    desired: FlowState,
    listening: bool,
) -> FlowEntryView {
    match flow_action(entry, desired) {
        FlowAction::Nothing => entry,
        FlowAction::Start => if listening {
            FlowEntryView { running: true, applied: Some(desired) }
        } else {
            entry
        },
        FlowAction::Change(_) => FlowEntryView { running: true, applied: Some(desired) },
        FlowAction::Relisten(plan) => if listening {
            FlowEntryView { running: true, applied: Some(desired) }
        } else {
            FlowEntryView {
                running: true,
                applied: match (entry.applied, plan) {
                    (Some(before), Some(p)) => Some(after_plan(before, desired, p)),
                    (Some(before), None) => Some(before),
                    (None, _) => None,
                },
            }
        },
    }
}

impl FlowServerEntry {
    pub fn new() -> (r: Self)
        ensures
            !r@.running,
            r@.applied is None,
    {
        FlowServerEntry { running: false, applied_state: None }
    }

    /// What is to be done so that the flow is answered as desired.
    pub fn plan_refresh(&self, desired_state: &FlowDnsDesiredState) -> (r: FlowAction)
        ensures
            r == flow_action(self@, desired_state.state()),
    {
        if !self.running {
            return FlowAction::Start;
        }
        match DnsRefreshPlanner::build(self.applied_state.as_ref(), desired_state) {
            DnsRefreshPlan::Noop => FlowAction::Nothing,
            DnsRefreshPlan::ApplyHandler(plan) => FlowAction::Change(plan),
            DnsRefreshPlan::RestartListener { handler_plan } => FlowAction::Relisten(handler_plan),
        }
    }

    /// Takes note of what was done, and of whether the listener came up where
    /// one was started.
    pub fn finish_refresh(&mut self, desired_state: &FlowDnsDesiredState, listening: bool)
        ensures
            final(self)@ == after_action(old(self)@, desired_state.state(), listening),
    {
        match self.plan_refresh(desired_state) {
            FlowAction::Nothing => {},
            FlowAction::Start => {
                if listening {
                    self.running = true;
                    self.applied_state = Some(
                        FlowDnsAppliedState::from_desired_state(desired_state),
                    );
                }
            },
            FlowAction::Change(_) => {
                self.applied_state = Some(FlowDnsAppliedState::from_desired_state(desired_state));
            },
            FlowAction::Relisten(handler_plan) => {
                if listening {
                    self.applied_state = Some(
                        FlowDnsAppliedState::from_desired_state(desired_state),
                    );
                } else {
                    let plan = DnsRefreshPlan::RestartListener { handler_plan };
                    let kept = DnsRefreshPlanner::applied_after_failure(
                        self.applied_state.as_ref(),
                        desired_state,
                        &plan,
                    );
                    if kept.is_some() {
                        self.applied_state = kept;
                    }
                }
            },
        }
    }
}

/// The resolvers of all flows, and the settings that they share.
pub struct LandscapeDnsServer {
    flows: HashMap<FlowId, FlowServerEntry>,
    cache_live_config: CacheRuntimeConfig,
    doh_runtime: Option<DohRuntimeConfig>,
}

/// What a query over HTTPS is taken on: the port and the path.
pub open spec fn doh_endpoint(doh: Option<DohRuntimeConfig>) -> Option<(u16, Seq<char>)> {
    match doh {
        Some(d) => Some((d.listen_port, d.http_endpoint@)),
        None => None,
    }
}

/// The name and type to look up for a request, or why it is turned away.
pub open spec fn lookup_for(
    domain: Result<Seq<char>, DnsErrorView>,
    query_type: RecordType,
    flow_id: FlowId,
    flow_runs: bool,
) -> Result<(Seq<char>, RecordType), DnsErrorView> {
    match domain {
        Err(e) => Err(e),
        Ok(name) => if flow_runs {
            Ok((name, query_type))
        } else {
            Err(DnsErrorView::FlowNotFound(flow_id))
        },
    }
}

/// The view of a name or an error.
pub open spec fn name_view(r: Result<String, DnsError>) -> Result<Seq<char>, DnsErrorView> {
    match r {
        Ok(name) => Ok(name@),
        Err(e) => Err(e@),
    }
}

/// The view of a name with a type, or of an error.
pub open spec fn lookup_view(r: Result<(String, RecordType), DnsError>) -> Result<
    (Seq<char>, RecordType),
    DnsErrorView,
> {
    match r {
        Ok((name, query_type)) => Ok((name@, query_type)),
        Err(e) => Err(e@),
    }
}

/// The name that a request is about.
pub open spec fn requested_name(req: CheckDnsReq) -> Result<Seq<char>, DnsErrorView> {
    match looked_up(req.domain@) {
        Some(name) => Ok(name),
        None => Err(DnsErrorView::Invalid(req.domain@)),
    }
}

impl LandscapeDnsServer {
    /// The resolver of each flow.
    pub closed spec fn flows(&self) -> Map<FlowId, FlowServerEntry> {
        self.flows@
    }

    /// The cache settings in force.
    pub closed spec fn live_cache(&self) -> CacheRuntimeConfig {
        self.cache_live_config
    }

    /// What queries over HTTPS are taken on, if they are.
    pub closed spec fn live_doh(&self) -> Option<(u16, Seq<char>)> {
        doh_endpoint(self.doh_runtime)
    }

    /// Whether the resolver of a flow runs.
    pub open spec fn runs(&self, flow_id: FlowId) -> bool {
        self.flows().contains_key(flow_id) && self.flows()[flow_id].running
    }

    pub fn new(cache_runtime: CacheRuntimeConfig, doh: Option<DohRuntimeConfig>) -> (r: Self)
        ensures
            r.flows() == Map::<FlowId, FlowServerEntry>::empty(),
            r.live_cache() == cache_runtime,
            r.live_doh() == doh_endpoint(doh),
    {
        LandscapeDnsServer {
            flows: HashMap::new(),
            cache_live_config: cache_runtime,
            doh_runtime: doh,
        }
    }

    /// Puts other cache settings in force.
    pub fn update_runtime_config(&mut self, cache_runtime: CacheRuntimeConfig)
        ensures
            final(self).flows() == old(self).flows(),
            final(self).live_cache() == cache_runtime,
            final(self).live_doh() == old(self).live_doh(),
    {
        self.cache_live_config = cache_runtime;
    }

    /// The cache settings in force, and what queries over HTTPS are taken on.
    pub fn current_live_runtime_config(&self) -> (r: (
        CacheRuntimeConfig,
        Option<DohRuntimeConfig>,
    ))
        ensures
            r.0 == self.live_cache(),
            doh_endpoint(r.1) == self.live_doh(),
    {
        let doh = match &self.doh_runtime {
            Some(d) => Some(
                DohRuntimeConfig {
                    listen_port: d.listen_port,
                    http_endpoint: d.http_endpoint.clone(),
                },
            ),
            None => None,
        };
        (self.cache_live_config, doh)
    }

    /// The resolver of a flow, where one runs.
    pub fn running_flow(&self, flow_id: FlowId) -> (r: Result<&FlowServerEntry, DnsError>)
        ensures
            match r {
                Ok(entry) => self.runs(flow_id) && self.flows()[flow_id] == *entry,
                Err(e) => e@ == DnsErrorView::FlowNotFound(flow_id) && !self.runs(flow_id),
            },
    {
        match self.flows.get(&flow_id) {
            Some(entry) => if entry.running {
                Ok(entry)
            } else {
                Err(DnsError::FlowNotFound(flow_id))
            },
            None => Err(DnsError::FlowNotFound(flow_id)),
        }
    }

    /// What to look up for a request, given the name that it is about: a name
    /// that is none comes before a flow that does not run.
    pub fn lookup_of(
        &self,
        domain: Result<String, DnsError>,
        record_type: LandscapeDnsRecordType,
        flow_id: FlowId,
    ) -> (r: Result<(String, RecordType), DnsError>)
        ensures
            lookup_view(r) == lookup_for(
                name_view(domain),
                record_type.query_type(),
                flow_id,
                self.runs(flow_id),
            ),
    {
        match domain {
            Err(e) => Err(e),
            Ok(name) => match self.running_flow(flow_id) {
                Err(e) => Err(e),
                Ok(_) => Ok((name, convert_record_type(record_type))),
            },
        }
    }

    /// What to take out of the cache and then check for a request.
    pub fn invalidate_domain_cache(&self, req: &CheckDnsReq) -> (r: Result<
        (String, RecordType),
        DnsError,
    >)
        ensures
            lookup_view(r) == lookup_for(
                requested_name(*req),
                req.record_type.query_type(),
                req.flow_id,
                self.runs(req.flow_id),
            ),
    {
        self.lookup_of(req.get_domain(), req.record_type, req.flow_id)
    }

    /// What to refresh in the cache for a request.
    pub fn refresh_domain_cache(&self, req: &CheckDnsReq) -> (r: Result<
        (String, RecordType),
        DnsError,
    >)
        ensures
            lookup_view(r) == lookup_for(
                requested_name(*req),
                req.record_type.query_type(),
                req.flow_id,
                self.runs(req.flow_id),
            ),
    {
        self.lookup_of(req.get_domain(), req.record_type, req.flow_id)
    }

    /// What to check for a request; nothing, and an empty result, where the
    /// flow does not run.
    pub fn check_domain(&self, req: &CheckDnsReq) -> (r: Result<
        Option<(String, RecordType)>,
        DnsError,
    >)
        ensures
            match (r, requested_name(*req)) {
                (Err(e), Err(expected)) => e@ == expected,
                (Ok(Some((found, query_type))), Ok(name)) => self.runs(req.flow_id) && found@ == name
                    && query_type == req.record_type.query_type(),
                (Ok(None), Ok(_)) => !self.runs(req.flow_id),
                _ => false,
            },
    {
        match req.get_domain() {
            Err(e) => Err(e),
            Ok(name) => match self.running_flow(req.flow_id) {
                Ok(_) => Ok(Some((name, convert_record_type(req.record_type)))),
                Err(_) => Ok(None),
            },
        }
    }

    /// What is to be done so that a flow is answered as desired.
    pub fn plan_refresh(&self, desired_state: &FlowDnsDesiredState) -> (r: FlowAction)
        ensures
            r == (if self.flows().contains_key(desired_state.flow_id) {
                flow_action(self.flows()[desired_state.flow_id]@, desired_state.state())
            } else {
                FlowAction::Start
            }),
    {
        match self.flows.get(&desired_state.flow_id) {
            Some(entry) => entry.plan_refresh(desired_state),
            None => FlowAction::Start,
        }
    }

    /// Takes note of what was done for a flow.
    pub fn finish_refresh(&mut self, desired_state: &FlowDnsDesiredState, listening: bool)
        ensures
            final(self).live_cache() == old(self).live_cache(),
            final(self).live_doh() == old(self).live_doh(),
            final(self).flows().dom() == old(self).flows().dom().insert(desired_state.flow_id),
            forall|id: FlowId|
                id != desired_state.flow_id && old(self).flows().contains_key(id)
                    ==> #[trigger] final(self).flows()[id] == old(self).flows()[id],
            final(self).flows()[desired_state.flow_id]@ == after_action(
                if old(self).flows().contains_key(desired_state.flow_id) {
                    old(self).flows()[desired_state.flow_id]@
                } else {
                    (FlowEntryView { running: false, applied: None })
                },
                desired_state.state(),
                listening,
            ),
    {
        let flow_id: FlowId = desired_state.flow_id;
        let mut entry = FlowServerEntry::new();
        if let Some(known) = self.flows.get(&flow_id) {
            entry = known.duplicate();
        }
        entry.finish_refresh(desired_state, listening);
        self.flows.insert(flow_id, entry);
        assert(self.flows().dom() =~= old(self).flows().dom().insert(flow_id));
    }
}

impl FlowServerEntry {
    fn duplicate(&self) -> (r: Self)
        ensures
            r@ == self@,
    {
        FlowServerEntry {
            running: self.running,
            applied_state: match &self.applied_state {
                Some(s) => Some(s.duplicate()),
                None => None,
            },
        }
    }
}

/// Once a change was carried out, asking for the same again does nothing.
pub proof fn law_refresh_settles(entry: FlowEntryView, desired: FlowState)
    ensures
        flow_action(after_action(entry, desired, true), desired) is Nothing,
{
}

/// A resolver whose new listener did not come up goes on running.
pub proof fn law_failed_restart_keeps_running(entry: FlowEntryView, desired: FlowState)
    requires
        entry.running,
    ensures
        after_action(entry, desired, false).running,
{
}

/// A resolver that could not be started is not registered as running.
pub proof fn law_failed_start_changes_nothing(entry: FlowEntryView, desired: FlowState)
    requires
        !entry.running,
    ensures
        after_action(entry, desired, false) == entry,
{
}

/// A flow whose resolver does not run is started, one that runs without a
/// known state gets a new listener and everything, and any other takes over
/// what changed.
pub proof fn law_action_for_a_flow(entry: FlowEntryView, desired: FlowState)
    ensures
        !entry.running ==> flow_action(entry, desired) == FlowAction::Start,
        entry.running && entry.applied is None ==> flow_action(entry, desired)
            == FlowAction::Relisten(
            Some(HandlerRefreshPlan::ReplaceRules { include_redirects: true }),
        ),
        entry.running ==> (entry.applied matches Some(before) ==> match flow_action(
            entry,
            desired,
        ) {
            FlowAction::Nothing => before == desired,
            FlowAction::Change(plan) => before != desired
                && crate::dns::planner::handler_plan(before, desired) == Some(plan),
            _ => false,
        }),
{
}

/// A resolver that was started, or took a change over, is as desired from then
/// on; where a start fails nothing is noted.
pub proof fn law_state_after_an_action(entry: FlowEntryView, desired: FlowState, listening: bool)
    ensures
        ({
            let after = after_action(entry, desired, listening);
            &&& listening && flow_action(entry, desired) != FlowAction::Nothing ==> after.running
                && after.applied == Some(desired)
            &&& flow_action(entry, desired) is Change ==> after.running && after.applied == Some(
                desired,
            )
            &&& flow_action(entry, desired) == FlowAction::Nothing ==> after == entry
            &&& !listening && flow_action(entry, desired) is Relisten && entry.applied is None
                ==> after.applied is None
        }),
{
}

/// A name that is none is told before a flow that does not run; otherwise the
/// name is looked up as it is, with the type asked for.
pub proof fn law_lookup_of_a_request(
    name: Seq<char>,
    e: DnsErrorView,
    query_type: RecordType,
    flow_id: FlowId,
    runs: bool,
)
    ensures
        lookup_for(Err(e), query_type, flow_id, runs) == Err::<(Seq<char>, RecordType), _>(e),
        lookup_for(Ok(name), query_type, flow_id, true) == Ok::<_, DnsErrorView>(
            (name, query_type),
        ),
        lookup_for(Ok(name), query_type, flow_id, false) == Err::<(Seq<char>, RecordType), _>(
            DnsErrorView::FlowNotFound(flow_id),
        ),
{
}

} // verus!

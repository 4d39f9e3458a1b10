//! What has to be done when a flow's resolver should become another one.
use vstd::prelude::*;
use crate::dns::runtime::{
    CacheRuntimeConfig, FlowDnsDesiredState, RedirectView, RuleView, RuntimeDnsRule,
    RuntimeRedirectRule,
};
use crate::viewed::{copy_list, same_list, views};

verus! {

/// What a flow's resolver is like.
#[derive(Debug, PartialEq, Eq)]
pub struct FlowDnsAppliedState {
    pub dns_rules: Vec<RuntimeDnsRule>,
    pub redirect_rules: Vec<RuntimeRedirectRule>,
    pub cache_runtime: CacheRuntimeConfig,
}

/// What a flow's resolver is like, list by list.
pub struct FlowState {
    pub dns_rules: Seq<RuleView>,
    pub redirect_rules: Seq<RedirectView>,
    pub cache_runtime: CacheRuntimeConfig,
}

impl View for FlowDnsAppliedState {
    type V = FlowState;

    open spec fn view(&self) -> FlowState {
        FlowState {
            dns_rules: views(self.dns_rules@),
            redirect_rules: views(self.redirect_rules@),
            cache_runtime: self.cache_runtime,
        }
    }
}

impl FlowDnsDesiredState {
    /// The part of what is wanted that the resolver keeps.
    pub open spec fn state(self) -> FlowState {
        FlowState {
            dns_rules: views(self.dns_rules@),
            redirect_rules: views(self.redirect_rules@),
            cache_runtime: self.cache_runtime,
        }
    }
}

/// What the running resolver has to take over.
#[derive(Debug, Clone, Copy, PartialEq, Eq, Structural)]
pub enum HandlerRefreshPlan {
    ReplaceRedirects,
    ApplyCacheRuntime { rebuild_cache: bool },
    ReplaceRules { include_redirects: bool },
}

/// What has to be done.
#[derive(Debug, Clone, Copy, PartialEq, Eq)]
pub enum DnsRefreshPlan {
    Noop,
    ApplyHandler(HandlerRefreshPlan),
    RestartListener { handler_plan: Option<HandlerRefreshPlan> },
}

/// The state once a resolver took over what a plan says.
pub open spec fn after_plan(
    before: FlowState,
    desired: FlowState,
    plan: HandlerRefreshPlan,
) -> FlowState {
    match plan {
        HandlerRefreshPlan::ReplaceRules { include_redirects } => FlowState {
            dns_rules: desired.dns_rules,
            redirect_rules: if include_redirects {
                desired.redirect_rules
            } else {
                before.redirect_rules
            },
            cache_runtime: desired.cache_runtime,
        },
        HandlerRefreshPlan::ReplaceRedirects => FlowState {
            redirect_rules: desired.redirect_rules,
            ..before
        },
        HandlerRefreshPlan::ApplyCacheRuntime { .. } => FlowState {
            cache_runtime: desired.cache_runtime,
            ..before
        },
    }
}

/// What a running resolver has to take over, the widest change first.
pub open spec fn handler_plan(before: FlowState, desired: FlowState) -> Option<HandlerRefreshPlan> {
    if before.dns_rules != desired.dns_rules {
        Some(
            HandlerRefreshPlan::ReplaceRules {
                include_redirects: before.redirect_rules != desired.redirect_rules,
            },
        )
    } else if before.redirect_rules != desired.redirect_rules {
        Some(HandlerRefreshPlan::ReplaceRedirects)
    } else if before.cache_runtime != desired.cache_runtime {
        Some(
            HandlerRefreshPlan::ApplyCacheRuntime {
                rebuild_cache: before.cache_runtime.cache_capacity
                    != desired.cache_runtime.cache_capacity || before.cache_runtime.cache_ttl
                    != desired.cache_runtime.cache_ttl,
            },
        )
    } else {
        None
    }
}

/// What has to be done: a resolver that has no state yet is started with
/// everything, another one takes over what changed.
pub open spec fn refresh_plan(before: Option<FlowState>, desired: FlowState) -> DnsRefreshPlan {
    match before {
        None => DnsRefreshPlan::RestartListener {
            handler_plan: Some(HandlerRefreshPlan::ReplaceRules { include_redirects: true }),
        },
        Some(state) => match handler_plan(state, desired) {
            Some(plan) => DnsRefreshPlan::ApplyHandler(plan),
            None => DnsRefreshPlan::Noop,
        },
    }
}

/// The view of an optional state.
pub open spec fn opt_state(o: Option<&FlowDnsAppliedState>) -> Option<FlowState> {
    match o {
        Some(s) => Some(s@),
        None => None,
    }
}

impl FlowDnsAppliedState {
    pub fn from_desired_state(desired_state: &FlowDnsDesiredState) -> (r: Self)
        ensures
            r@ == desired_state.state(),
    {
        FlowDnsAppliedState {
            dns_rules: copy_list(&desired_state.dns_rules),
            redirect_rules: copy_list(&desired_state.redirect_rules),
            cache_runtime: desired_state.cache_runtime,
        }
    }

    pub(crate) fn duplicate(&self) -> (r: Self)
        ensures
            r@ == self@,
    {
        FlowDnsAppliedState {
            dns_rules: copy_list(&self.dns_rules),
            redirect_rules: copy_list(&self.redirect_rules),
            cache_runtime: self.cache_runtime,
        }
    }

    fn apply_handler_plan(
        &self,
        desired_state: &FlowDnsDesiredState,
        handler_plan: &HandlerRefreshPlan,
    ) -> (r: Self)
        ensures
            r@ == after_plan(self@, desired_state.state(), *handler_plan),
    {
        let mut applied = self.duplicate();
        match handler_plan {
            HandlerRefreshPlan::ReplaceRules { include_redirects } => {
                applied.dns_rules = copy_list(&desired_state.dns_rules);
                if *include_redirects {
                    applied.redirect_rules = copy_list(&desired_state.redirect_rules);
                }
                applied.cache_runtime = desired_state.cache_runtime;
            },
            HandlerRefreshPlan::ReplaceRedirects => {
                applied.redirect_rules = copy_list(&desired_state.redirect_rules);
            },
            HandlerRefreshPlan::ApplyCacheRuntime { .. } => {
                applied.cache_runtime = desired_state.cache_runtime;
            },
        }
        applied
    }
}

pub struct DnsRefreshPlanner;

impl DnsRefreshPlanner {
    pub fn build(
        previous: Option<&FlowDnsAppliedState>,
        desired_state: &FlowDnsDesiredState,
    ) -> (r: DnsRefreshPlan)
        ensures
            r == refresh_plan(opt_state(previous), desired_state.state()),
    {
        match previous {
            None => DnsRefreshPlan::RestartListener {
                handler_plan: Some(HandlerRefreshPlan::ReplaceRules { include_redirects: true }),
            },
            Some(state) => match Self::build_handler_plan(state, desired_state) {
                Some(plan) => DnsRefreshPlan::ApplyHandler(plan),
                None => DnsRefreshPlan::Noop,
            },
        }
    }

    /// The state to go on with where the listener could not be restarted: what
    /// the resolver took over stays.
    pub fn applied_after_failure(
        previous: Option<&FlowDnsAppliedState>,
        desired_state: &FlowDnsDesiredState,
        plan: &DnsRefreshPlan,
    ) -> (r: Option<FlowDnsAppliedState>)
        ensures
            match (previous, *plan) {
                (Some(state), DnsRefreshPlan::RestartListener { handler_plan: None }) => r is Some
                    && r->0@ == state@,
                (
                    Some(state),
                    DnsRefreshPlan::RestartListener { handler_plan: Some(taken) },
                ) => r is Some && r->0@ == after_plan(state@, desired_state.state(), taken),
                _ => r is None,
            },
    {
        match (previous, plan) {
            (Some(state), DnsRefreshPlan::RestartListener { handler_plan: None }) => Some(
                state.duplicate(),
            ),
            (Some(state), DnsRefreshPlan::RestartListener { handler_plan: Some(taken) }) => Some(
                state.apply_handler_plan(desired_state, taken),
            ),
            _ => None,
        }
    }

    fn build_handler_plan(
        previous: &FlowDnsAppliedState,
        desired_state: &FlowDnsDesiredState,
    ) -> (r: Option<HandlerRefreshPlan>)
        ensures
            r == handler_plan(previous@, desired_state.state()),
    {
        let dns_rules_changed: bool = !same_list(&previous.dns_rules, &desired_state.dns_rules);
        let redirects_changed: bool = !same_list(
            &previous.redirect_rules,
            &desired_state.redirect_rules,
        );
        let cache_runtime_changed: bool = previous.cache_runtime != desired_state.cache_runtime;
        let cache_rebuild_required: bool = previous.cache_runtime.cache_capacity
            != desired_state.cache_runtime.cache_capacity || previous.cache_runtime.cache_ttl
            != desired_state.cache_runtime.cache_ttl;
        if dns_rules_changed {
            Some(HandlerRefreshPlan::ReplaceRules { include_redirects: redirects_changed })
        } else if redirects_changed {
            Some(HandlerRefreshPlan::ReplaceRedirects)
        } else if cache_runtime_changed {
            Some(HandlerRefreshPlan::ApplyCacheRuntime { rebuild_cache: cache_rebuild_required })
        } else {
            None
        }
    }
}

/// Nothing has to be done exactly when the resolver is already as it should be.
pub proof fn law_noop_iff_same(before: FlowState, desired: FlowState)
    ensures
        refresh_plan(Some(before), desired) is Noop <==> before == desired,
{
}

/// A resolver that took over what a plan says is as it should be, unless
/// redirects and the cache's settings changed at once while the rules did not.
pub proof fn law_plan_reaches_desired(before: FlowState, desired: FlowState)
    requires
        before != desired,
        !(before.dns_rules == desired.dns_rules && before.redirect_rules != desired.redirect_rules
            && before.cache_runtime != desired.cache_runtime),
    ensures
        after_plan(before, desired, handler_plan(before, desired)->0) == desired,
{
}

/// A running resolver is never restarted for a change of rules, redirects or
/// cache settings.
pub proof fn law_running_resolver_keeps_listening(before: FlowState, desired: FlowState)
    ensures
        !(refresh_plan(Some(before), desired) is RestartListener),
{
}

/// The widest change decides: other rules are taken over, together with the
/// redirects where these changed too; then redirects alone; and then the
/// settings of the cache, which is made anew where its size or its time to
/// live changed.
pub proof fn law_widest_change_decides(before: FlowState, desired: FlowState)
    ensures
        before.dns_rules != desired.dns_rules ==> refresh_plan(Some(before), desired)
            == DnsRefreshPlan::ApplyHandler(
            HandlerRefreshPlan::ReplaceRules {
                include_redirects: before.redirect_rules != desired.redirect_rules,
            },
        ),
        before.dns_rules == desired.dns_rules && before.redirect_rules != desired.redirect_rules
            ==> refresh_plan(Some(before), desired) == DnsRefreshPlan::ApplyHandler(
            HandlerRefreshPlan::ReplaceRedirects,
        ),
        before.dns_rules == desired.dns_rules && before.redirect_rules == desired.redirect_rules
            && before.cache_runtime != desired.cache_runtime ==> refresh_plan(
            Some(before),
            desired,
        ) == DnsRefreshPlan::ApplyHandler(
            HandlerRefreshPlan::ApplyCacheRuntime {
                rebuild_cache: before.cache_runtime.cache_capacity
                    != desired.cache_runtime.cache_capacity || before.cache_runtime.cache_ttl
                    != desired.cache_runtime.cache_ttl,
            },
        ),
        refresh_plan(None, desired) == (DnsRefreshPlan::RestartListener {
            handler_plan: Some(HandlerRefreshPlan::ReplaceRules { include_redirects: true }),
        }),
{
}

/// What is taken over comes from what is wanted, and the rest stays.
pub proof fn law_plan_takes_over_its_part(
    before: FlowState,
    desired: FlowState,
    plan: HandlerRefreshPlan,
)
    ensures
        ({
            let after = after_plan(before, desired, plan);
            match plan {
                HandlerRefreshPlan::ReplaceRules { include_redirects } => {
                    &&& after.dns_rules == desired.dns_rules
                    &&& after.cache_runtime == desired.cache_runtime
                    &&& include_redirects ==> after.redirect_rules == desired.redirect_rules
                    &&& !include_redirects ==> after.redirect_rules == before.redirect_rules
                },
                HandlerRefreshPlan::ReplaceRedirects => {
                    &&& after.redirect_rules == desired.redirect_rules
                    &&& after.dns_rules == before.dns_rules
                    &&& after.cache_runtime == before.cache_runtime
                },
                HandlerRefreshPlan::ApplyCacheRuntime { .. } => {
                    &&& after.cache_runtime == desired.cache_runtime
                    &&& after.dns_rules == before.dns_rules
                    &&& after.redirect_rules == before.redirect_rules
                },
            }
        }),
{
}

} // verus!

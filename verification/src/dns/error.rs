//! What can go wrong when a name is checked or refreshed.
use vstd::prelude::*;
use crate::text::{decimal, decimal_text};

verus! {

/// The number of a flow.
pub type FlowId = u32;

#[derive(Debug, PartialEq, Eq)]
pub enum DnsError {
    Invalid { domain: String },
    FlowNotFound(FlowId),
    RefreshRequiresRule(String),
    RefreshRedirected(String),
    RefreshFailed(String),
}

/// An error with its text as a sequence of characters.
pub enum DnsErrorView {
    Invalid(Seq<char>),
    FlowNotFound(FlowId),
    RefreshRequiresRule(Seq<char>),
    RefreshRedirected(Seq<char>),
    RefreshFailed(Seq<char>),
}

impl View for DnsError {
    type V = DnsErrorView;

    open spec fn view(&self) -> DnsErrorView {
        match *self {
            DnsError::Invalid { domain } => DnsErrorView::Invalid(domain@),
            DnsError::FlowNotFound(id) => DnsErrorView::FlowNotFound(id),
            DnsError::RefreshRequiresRule(d) => DnsErrorView::RefreshRequiresRule(d@),
            DnsError::RefreshRedirected(d) => DnsErrorView::RefreshRedirected(d@),
            DnsError::RefreshFailed(d) => DnsErrorView::RefreshFailed(d@),
        }
    }
}

impl DnsErrorView {
    /// The status that the failure is answered with.
    pub open spec fn status(self) -> u16 {
        match self {
            DnsErrorView::Invalid(_) => 400,
            DnsErrorView::FlowNotFound(_) => 404,
            DnsErrorView::RefreshRequiresRule(_) => 409,
            DnsErrorView::RefreshRedirected(_) => 409,
            DnsErrorView::RefreshFailed(_) => 502,
        }
    }

    pub open spec fn text(self) -> Seq<char> {
        match self {
            DnsErrorView::Invalid(domain) => "Invalid domain name '"@ + domain + "'"@,
            DnsErrorView::FlowNotFound(id) => "DNS flow '"@ + decimal(id as nat) + "' not found"@,
            DnsErrorView::RefreshRequiresRule(d) =>
            "DNS cache refresh requires a matched upstream rule for '"@ + d + "'"@,
            DnsErrorView::RefreshRedirected(d) =>
            "DNS cache refresh is not available for redirected domain '"@ + d + "'"@,
            DnsErrorView::RefreshFailed(d) => "DNS cache refresh failed for '"@ + d + "'"@,
        }
    }
}

impl DnsError {
    pub fn message(&self) -> (r: String)
        ensures
            r@ == self@.text(),
    {
        match self {
            DnsError::Invalid { domain } => "Invalid domain name '".to_owned().concat(
                domain,
            ).concat("'"),
            DnsError::FlowNotFound(id) => "DNS flow '".to_owned().concat(
                &decimal_text(*id as u128),
            ).concat("' not found"),
            DnsError::RefreshRequiresRule(d) =>
            "DNS cache refresh requires a matched upstream rule for '".to_owned().concat(d).concat(
                "'",
            ),
            DnsError::RefreshRedirected(d) =>
            "DNS cache refresh is not available for redirected domain '".to_owned().concat(
                d,
            ).concat("'"),
            DnsError::RefreshFailed(d) => "DNS cache refresh failed for '".to_owned().concat(
                d,
            ).concat("'"),
        }
    }

    pub fn error_id(&self) -> (r: &'static str)
        ensures
            r@ == (match self@ {
                DnsErrorView::Invalid(_) => "dns_domain.invalid"@,
                DnsErrorView::FlowNotFound(_) => "dns_check.flow_not_found"@,
                DnsErrorView::RefreshRequiresRule(_) => "dns_check.refresh_requires_rule"@,
                DnsErrorView::RefreshRedirected(_) => "dns_check.refresh_redirected"@,
                DnsErrorView::RefreshFailed(_) => "dns_check.refresh_failed"@,
            }),
    {
        match self {
            DnsError::Invalid { .. } => "dns_domain.invalid",
            DnsError::FlowNotFound(_) => "dns_check.flow_not_found",
            DnsError::RefreshRequiresRule(_) => "dns_check.refresh_requires_rule",
            DnsError::RefreshRedirected(_) => "dns_check.refresh_redirected",
            DnsError::RefreshFailed(_) => "dns_check.refresh_failed",
        }
    }

    pub fn http_status_code(&self) -> (r: u16)
        ensures
            r == self@.status(),
    {
        match self {
            DnsError::Invalid { .. } => 400,
            DnsError::FlowNotFound(_) => 404,
            DnsError::RefreshRequiresRule(_) => 409,
            DnsError::RefreshRedirected(_) => 409,
            DnsError::RefreshFailed(_) => 502,
        }
    }
}

/// A name that is none is 400, a flow that is not there 404, a refresh that
/// cannot be 409, and one that failed upstream 502.
pub proof fn law_status_of_dns_errors(e: DnsErrorView)
    ensures
        e.status() == 400 <==> e is Invalid,
        e.status() == 404 <==> e is FlowNotFound,
        e.status() == 409 <==> e is RefreshRequiresRule || e is RefreshRedirected,
        e.status() == 502 <==> e is RefreshFailed,
{
}

} // verus!

//! Why a gateway rule is refused.
use vstd::prelude::*;
use crate::ids::{id_text, uuid_text, ConfigId};

verus! {

#[derive(Debug)]
pub enum GatewayError {
    NotFound(ConfigId),
    LegacyPathPrefixUnsupported,
    DomainsRequired { rule_name: String },
    HostConflict { domain: String, rule_name: String },
    WildcardCoversDomain { wildcard: String, domain: String, rule_name: String },
    DomainPatternOverlap { domain: String, other_domain: String, rule_name: String },
    PathPrefixOverlap { new_prefix: String, existing_prefix: String, rule_name: String },
    InvalidPathPrefix { prefix: String },
    DuplicatePathGroupPrefix { prefix: String, rule_name: String },
    SniProxyHeaderUnsupported,
    InvalidHeaderName { name: String },
    InvalidHeaderValue { name: String },
}

impl GatewayError {
    pub open spec fn text(self) -> Seq<char> {
        match self {
            GatewayError::NotFound(id) => "Gateway rule '"@ + uuid_text(id) + "' not found"@,
            GatewayError::LegacyPathPrefixUnsupported =>
            "Gateway rule type 'legacy_path_prefix' is read-only and cannot be created or updated"@,
            GatewayError::DomainsRequired { rule_name } => "Gateway rule '"@ + rule_name@
                + "' requires at least one domain"@,
            GatewayError::HostConflict { domain, rule_name } => "Host domain conflict: domain '"@
                + domain@ + "' already used by rule '"@ + rule_name@ + "'"@,
            GatewayError::WildcardCoversDomain { wildcard, domain, rule_name } =>
            "Wildcard domain '"@ + wildcard@ + "' covers specific domain '"@ + domain@
                + "' in rule '"@ + rule_name@ + "'"@,
            GatewayError::DomainPatternOverlap { domain, other_domain, rule_name } =>
            "Domain pattern '"@ + domain@ + "' overlaps with '"@ + other_domain@ + "' in rule '"@
                + rule_name@ + "'"@,
            GatewayError::PathPrefixOverlap { new_prefix, existing_prefix, rule_name } =>
            "Path prefix '"@ + new_prefix@ + "' overlaps with '"@ + existing_prefix@
                + "' in rule '"@ + rule_name@ + "'"@,
            GatewayError::InvalidPathPrefix { prefix } => "Path prefix '"@ + prefix@
                + "' is invalid"@,
            GatewayError::DuplicatePathGroupPrefix { prefix, rule_name } =>
            "Duplicate path prefix '"@ + prefix@ + "' in rule '"@ + rule_name@ + "'"@,
            GatewayError::SniProxyHeaderUnsupported =>
            "SNI passthrough rules do not support request header injection or client IP headers"@,
            GatewayError::InvalidHeaderName { name } => "Invalid request header name '"@ + name@
                + "'"@,
            GatewayError::InvalidHeaderValue { name } => "Invalid request header value for '"@
                + name@ + "'"@,
        }
    }

    pub fn message(&self) -> (r: String)
        ensures
            r@ == self.text(),
    {
        match self {
            GatewayError::NotFound(id) => "Gateway rule '".to_owned().concat(&id_text(*id)).concat(
                "' not found",
            ),
            GatewayError::LegacyPathPrefixUnsupported =>
            "Gateway rule type 'legacy_path_prefix' is read-only and cannot be created or updated".to_owned(),
            GatewayError::DomainsRequired { rule_name } => "Gateway rule '".to_owned().concat(
                rule_name,
            ).concat("' requires at least one domain"),
            GatewayError::HostConflict { domain, rule_name } =>
            "Host domain conflict: domain '".to_owned().concat(domain).concat(
                "' already used by rule '",
            ).concat(rule_name).concat("'"),
            GatewayError::WildcardCoversDomain { wildcard, domain, rule_name } =>
            "Wildcard domain '".to_owned().concat(wildcard).concat(
                "' covers specific domain '",
            ).concat(domain).concat("' in rule '").concat(rule_name).concat("'"),
            GatewayError::DomainPatternOverlap { domain, other_domain, rule_name } =>
            "Domain pattern '".to_owned().concat(domain).concat("' overlaps with '").concat(
                other_domain,
            ).concat("' in rule '").concat(rule_name).concat("'"),
            GatewayError::PathPrefixOverlap { new_prefix, existing_prefix, rule_name } =>
            "Path prefix '".to_owned().concat(new_prefix).concat("' overlaps with '").concat(
                existing_prefix,
            ).concat("' in rule '").concat(rule_name).concat("'"),
            GatewayError::InvalidPathPrefix { prefix } => "Path prefix '".to_owned().concat(
                prefix,
            ).concat("' is invalid"),
            GatewayError::DuplicatePathGroupPrefix { prefix, rule_name } =>
            "Duplicate path prefix '".to_owned().concat(prefix).concat("' in rule '").concat(
                rule_name,
            ).concat("'"),
            GatewayError::SniProxyHeaderUnsupported =>
            "SNI passthrough rules do not support request header injection or client IP headers".to_owned(),
            GatewayError::InvalidHeaderName { name } =>
            "Invalid request header name '".to_owned().concat(name).concat("'"),
            GatewayError::InvalidHeaderValue { name } =>
            "Invalid request header value for '".to_owned().concat(name).concat("'"),
        }
    }

    pub open spec fn id(self) -> Seq<char> {
        match self {
            GatewayError::NotFound(_) => "gateway.rule_not_found"@,
            GatewayError::LegacyPathPrefixUnsupported =>
            "gateway.legacy_path_prefix_unsupported"@,
            GatewayError::DomainsRequired { .. } => "gateway.domains_required"@,
            GatewayError::HostConflict { .. } => "gateway.host_conflict"@,
            GatewayError::WildcardCoversDomain { .. } => "gateway.wildcard_covers_domain"@,
            GatewayError::DomainPatternOverlap { .. } => "gateway.domain_pattern_overlap"@,
            GatewayError::PathPrefixOverlap { .. } => "gateway.path_prefix_overlap"@,
            GatewayError::InvalidPathPrefix { .. } => "gateway.invalid_path_prefix"@,
            GatewayError::DuplicatePathGroupPrefix { .. } => "gateway.duplicate_path_group_prefix"@,
            GatewayError::SniProxyHeaderUnsupported => "gateway.sni_proxy_header_unsupported"@,
            GatewayError::InvalidHeaderName { .. } => "gateway.invalid_header_name"@,
            GatewayError::InvalidHeaderValue { .. } => "gateway.invalid_header_value"@,
        }
    }

    pub fn error_id(&self) -> (r: &'static str)
        ensures
            r@ == self.id(),
    {
        match self {
            GatewayError::NotFound(_) => "gateway.rule_not_found",
            GatewayError::LegacyPathPrefixUnsupported => "gateway.legacy_path_prefix_unsupported",
            GatewayError::DomainsRequired { .. } => "gateway.domains_required",
            GatewayError::HostConflict { .. } => "gateway.host_conflict",
            GatewayError::WildcardCoversDomain { .. } => "gateway.wildcard_covers_domain",
            GatewayError::DomainPatternOverlap { .. } => "gateway.domain_pattern_overlap",
            GatewayError::PathPrefixOverlap { .. } => "gateway.path_prefix_overlap",
            GatewayError::InvalidPathPrefix { .. } => "gateway.invalid_path_prefix",
            GatewayError::DuplicatePathGroupPrefix { .. } => "gateway.duplicate_path_group_prefix",
            GatewayError::SniProxyHeaderUnsupported => "gateway.sni_proxy_header_unsupported",
            GatewayError::InvalidHeaderName { .. } => "gateway.invalid_header_name",
            GatewayError::InvalidHeaderValue { .. } => "gateway.invalid_header_value",
        }
    }

    /// 404 for a rule that is not there, 409 for a conflict with another rule
    /// and 400 for a rule that is wrong in itself.
    pub open spec fn status(self) -> u16 {
        match self {
            GatewayError::NotFound(_) => 404,
            GatewayError::HostConflict { .. } => 409,
            GatewayError::WildcardCoversDomain { .. } => 409,
            GatewayError::DomainPatternOverlap { .. } => 409,
            GatewayError::PathPrefixOverlap { .. } => 409,
            GatewayError::DuplicatePathGroupPrefix { .. } => 409,
            _ => 400,
        }
    }

    pub fn http_status_code(&self) -> (r: u16)
        ensures
            r == self.status(),
    {
        match self {
            GatewayError::NotFound(_) => 404,
            GatewayError::HostConflict { .. }
            | GatewayError::WildcardCoversDomain { .. }
            | GatewayError::DomainPatternOverlap { .. }
            | GatewayError::PathPrefixOverlap { .. }
            | GatewayError::DuplicatePathGroupPrefix { .. } => 409,
            _ => 400,
        }
    }
}

/// A rule that is not there is 404, what is at odds with another rule or with
/// itself 409, and everything else that is wrong with a request 400.
pub proof fn law_status_of_rule_errors(e: GatewayError)
    ensures
        ({
            let odds = e is HostConflict || e is WildcardCoversDomain || e is DomainPatternOverlap
                || e is PathPrefixOverlap || e is DuplicatePathGroupPrefix;
            &&& e.status() == 404 <==> e is NotFound
            &&& e.status() == 409 <==> odds
            &&& e.status() == 400 <==> !odds && !(e is NotFound)
        }),
{
}

} // verus!

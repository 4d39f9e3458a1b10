//! Accounts with DNS providers.
use vstd::prelude::*;
use crate::ids::ConfigId;
use crate::text::{trim, trimmed};

verus! {

/// Which provider an account is with, and its settings as text.
#[derive(Debug, Clone)]
pub struct DnsProviderConfig {
    pub provider: String,
    pub settings: String,
}

#[derive(Debug)]
pub struct DnsProviderProfile {
    pub id: ConfigId,
    pub name: String,
    pub provider_config: DnsProviderConfig,
    pub remark: Option<String>,
    pub ddns_default_ttl: Option<u32>,
}

#[derive(Debug)]
pub struct DnsProviderCredentialCheckRequest {
    pub provider_config: DnsProviderConfig,
}

#[derive(Debug)]
pub struct DnsProviderCredentialCheckResult {
    pub message: String,
}

impl DnsProviderProfile {
    /// The lifetime in seconds of records made with this profile, both those of
    /// dynamic DNS and those of certificate challenges; `None` leaves it to the
    /// provider.
    pub fn default_record_ttl(&self) -> (r: Option<u32>)
        ensures
            r == self.ddns_default_ttl,
    {
        self.ddns_default_ttl
    }

    /// What is wrong with the profile.
    pub open spec fn fault(self) -> Option<Seq<char>> {
        if trimmed(self.name@).len() == 0 {
            Some("DNS provider profile name must not be empty"@)
        } else if self.ddns_default_ttl == Some(0u32) {
            Some("ddns_default_ttl must be greater than 0 when provided"@)
        } else {
            None
        }
    }

    pub fn validate(&self) -> (r: Result<(), String>)
        ensures
            match r {
                Ok(_) => self.fault() is None,
                Err(e) => self.fault() == Some(e@),
            },
    {
        if trim(&self.name).as_str().is_empty() {
            return Err("DNS provider profile name must not be empty".to_owned());
        }
        if let Some(ttl) = self.ddns_default_ttl {
            if ttl == 0 {
                return Err("ddns_default_ttl must be greater than 0 when provided".to_owned());
            }
        }
        Ok(())
    }
}

/// A profile is accepted exactly when it has a name that is not blank and, if
/// it says how long records hold, says more than no time.
pub proof fn law_accepted_profiles(p: DnsProviderProfile)
    ensures
        p.fault() is None <==> trimmed(p.name@).len() > 0 && (p.ddns_default_ttl matches Some(ttl)
            ==> ttl > 0),
{
}

} // verus!

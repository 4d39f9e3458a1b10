//! Parameters of the DHCPv6 server. The prefixes that it serves from are
//! configured next to it.
use vstd::prelude::*;
use crate::error::{invalid, invalid_because, verdict_of, ServiceConfigError, Verdict};
use crate::text::{decimal, decimal_text};

verus! {

#[derive(Debug, Clone, Copy)]
pub struct DHCPv6ServerConfig {
    pub enable: bool,
    /// Stateful address assignment.
    pub ia_na: Option<DHCPv6IANAConfig>,
    /// Prefix delegation to downstream routers.
    pub ia_pd: Option<DHCPv6IAPDConfig>,
}

/// Parameters of address assignment.
#[derive(Debug, Clone, Copy)]
pub struct DHCPv6IANAConfig {
    /// The longest prefix that qualifies.
    pub max_prefix_len: u8,
    /// The first host part to hand out.
    pub pool_start: u64,
    /// The last host part to hand out; without it, the subnet's last.
    pub pool_end: Option<u64>,
    /// Preferred lifetime in seconds.
    pub preferred_lifetime: u32,
    /// Valid lifetime in seconds.
    pub valid_lifetime: u32,
}

/// Parameters of prefix delegation.
#[derive(Debug, Clone, Copy)]
pub struct DHCPv6IAPDConfig {
    /// The longest prefix whose block enters the pool; smaller networks are
    /// left out. What is delegated has the length of the block itself.
    pub delegate_prefix_len: u8,
    /// Preferred lifetime in seconds.
    pub preferred_lifetime: u32,
    /// Valid lifetime in seconds.
    pub valid_lifetime: u32,
}

/// The preferred lifetime of a configuration that names none: an hour.
pub fn default_preferred_lifetime() -> (r: u32)
    ensures
        r == 3600,
{
    3600
}

/// The valid lifetime of a configuration that names none: two hours.
pub fn default_valid_lifetime() -> (r: u32)
    ensures
        r == 7200,
{
    7200
}

impl Default for DHCPv6ServerConfig {
    fn default() -> (r: Self)
        ensures
            !r.enable,
            r.ia_na is None,
            r.ia_pd is None,
    {
        DHCPv6ServerConfig { enable: false, ia_na: None, ia_pd: None }
    }
}

impl DHCPv6IANAConfig {
    /// The first thing wrong with the address assignment parameters.
    pub open spec fn verdict(self) -> Verdict {
        if self.max_prefix_len == 0 || self.max_prefix_len > 127 {
            Verdict::Fault(
                "IA_NA max_prefix_len ("@ + decimal(self.max_prefix_len as nat)
                    + ") must be between 1 and 127"@,
            )
        } else if self.pool_end is Some && self.pool_end->0 <= self.pool_start {
            Verdict::Fault(
                "IA_NA pool_end ("@ + decimal(self.pool_end->0 as nat) + ") must be > pool_start ("@
                    + decimal(self.pool_start as nat) + ")"@,
            )
        } else if self.valid_lifetime == 0 {
            Verdict::Fault("IA_NA valid_lifetime must be > 0"@)
        } else if self.preferred_lifetime > self.valid_lifetime {
            Verdict::Fault("IA_NA preferred_lifetime must be <= valid_lifetime"@)
        } else {
            Verdict::Clean
        }
    }

    fn validate(&self) -> (r: Result<(), ServiceConfigError>)
        ensures
            verdict_of(r) == self.verdict(),
    {
        if self.max_prefix_len == 0 || self.max_prefix_len > 127 {
            return invalid(
                "IA_NA max_prefix_len (".to_owned().concat(
                    &decimal_text(self.max_prefix_len as u128),
                ).concat(") must be between 1 and 127"),
            );
        }
        if let Some(pool_end) = self.pool_end {
            if pool_end <= self.pool_start {
                return invalid(
                    "IA_NA pool_end (".to_owned().concat(&decimal_text(pool_end as u128)).concat(
                        ") must be > pool_start (",
                    ).concat(&decimal_text(self.pool_start as u128)).concat(")"),
                );
            }
        }
        if self.valid_lifetime == 0 {
            return invalid_because("IA_NA valid_lifetime must be > 0");
        }
        if self.preferred_lifetime > self.valid_lifetime {
            return invalid_because("IA_NA preferred_lifetime must be <= valid_lifetime");
        }
        Ok(())
    }
}

impl DHCPv6IAPDConfig {
    /// The first thing wrong with the prefix delegation parameters.
    pub open spec fn verdict(self) -> Verdict {
        if self.delegate_prefix_len == 0 || self.delegate_prefix_len > 128 {
            Verdict::Fault(
                "IA_PD delegate_prefix_len ("@ + decimal(self.delegate_prefix_len as nat)
                    + ") must be between 1 and 128"@,
            )
        } else if self.valid_lifetime == 0 {
            Verdict::Fault("IA_PD valid_lifetime must be > 0"@)
        } else if self.preferred_lifetime > self.valid_lifetime {
            Verdict::Fault("IA_PD preferred_lifetime must be <= valid_lifetime"@)
        } else {
            Verdict::Clean
        }
    }

    fn validate(&self) -> (r: Result<(), ServiceConfigError>)
        ensures
            verdict_of(r) == self.verdict(),
    {
        if self.delegate_prefix_len == 0 || self.delegate_prefix_len > 128 {
            return invalid(
                "IA_PD delegate_prefix_len (".to_owned().concat(
                    &decimal_text(self.delegate_prefix_len as u128),
                ).concat(") must be between 1 and 128"),
            );
        }
        if self.valid_lifetime == 0 {
            return invalid_because("IA_PD valid_lifetime must be > 0");
        }
        if self.preferred_lifetime > self.valid_lifetime {
            return invalid_because("IA_PD preferred_lifetime must be <= valid_lifetime");
        }
        Ok(())
    }
}

impl DHCPv6ServerConfig {
    /// The first thing wrong with the server's parameters. A server that is
    /// switched off is not looked at.
    pub open spec fn verdict(self) -> Verdict {
        if !self.enable {
            Verdict::Clean
        } else {
            let na = match self.ia_na {
                Some(ia_na) => ia_na.verdict(),
                None => Verdict::Clean,
            };
            na.or_else(
                match self.ia_pd {
                    Some(ia_pd) => ia_pd.verdict(),
                    None => Verdict::Clean,
                },
            )
        }
    }

    pub fn validate(&self) -> (r: Result<(), ServiceConfigError>)
        ensures
            verdict_of(r) == self.verdict(),
    {
        if !self.enable {
            return Ok(());
        }
        if let Some(ia_na) = &self.ia_na {
            let checked = ia_na.validate();
            if checked.is_err() {
                return checked;
            }
        }
        if let Some(ia_pd) = &self.ia_pd {
            let checked = ia_pd.validate();
            if checked.is_err() {
                return checked;
            }
        }
        Ok(())
    }
}

/// A server is accepted exactly when it is switched off, or each part that is
/// configured has its lengths in range, a positive valid lifetime that the
/// preferred one does not exceed, and a pool that does not end before its start.
pub proof fn law_accepted_servers(c: DHCPv6ServerConfig)
    ensures
        c.verdict() is Clean <==> (c.enable ==> {
            &&& c.ia_na matches Some(na) ==> {
                &&& 1 <= na.max_prefix_len <= 127
                &&& na.pool_end matches Some(end) ==> na.pool_start < end
                &&& na.valid_lifetime > 0
                &&& na.preferred_lifetime <= na.valid_lifetime
            }
            &&& c.ia_pd matches Some(pd) ==> {
                &&& 1 <= pd.delegate_prefix_len <= 128
                &&& pd.valid_lifetime > 0
                &&& pd.preferred_lifetime <= pd.valid_lifetime
            }
        }),
        !(c.verdict() is Overflow),
{
}

} // verus!

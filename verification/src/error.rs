//! The error that configuration checks report.
use vstd::prelude::*;

verus! {

/// Why a service configuration is refused.
#[derive(Debug)]
pub enum ServiceConfigError {
    InvalidConfig { reason: String },
}

/// What a configuration check comes to.
pub enum Verdict {
    /// Nothing is wrong.
    Clean,
    /// The configuration is refused, for this reason.
    Fault(Seq<char>),
    /// Comparing two index ranges would leave 64-bit arithmetic before the
    /// check reaches an answer.
    Overflow,
}

impl Verdict {
    /// The first of two checks that is not clean.
    pub open spec fn or_else(self, next: Verdict) -> Verdict {
        if self is Clean {
            next
        } else {
            self
        }
    }
}

/// What a check result says.
pub open spec fn verdict_of(r: Result<(), ServiceConfigError>) -> Verdict {
    match r {
        Ok(_) => Verdict::Clean,
        Err(ServiceConfigError::InvalidConfig { reason }) => Verdict::Fault(reason@),
    }
}

/// A refusal with the given reason.
pub fn invalid(reason: String) -> (r: Result<(), ServiceConfigError>)
    ensures
        verdict_of(r) == Verdict::Fault(reason@),
{
    Err(ServiceConfigError::InvalidConfig { reason })
}

/// A refusal with a fixed reason.
pub fn invalid_because(reason: &str) -> (r: Result<(), ServiceConfigError>)
    ensures
        verdict_of(r) == Verdict::Fault(reason@),
{
    invalid(reason.to_owned())
}

} // verus!

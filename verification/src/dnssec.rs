//! What DNSSEC validation found.
use vstd::prelude::*;

verus! {

/// What validation found of an answer.
#[derive(Clone, Copy, Debug, PartialEq, Eq, Structural)]
pub enum DnssecStatus {
    Secure,
    Insecure,
    Bogus,
    Indeterminate,
}

impl DnssecStatus {
    /// The name of the finding.
    pub open spec fn name(&self) -> Seq<char> {
        match self {
            DnssecStatus::Secure => "secure"@,
            DnssecStatus::Insecure => "insecure"@,
            DnssecStatus::Bogus => "bogus"@,
            DnssecStatus::Indeterminate => "indeterminate"@,
        }
    }

    /// The name of the finding.
    pub fn as_str(&self) -> (s: &'static str)
        ensures
            s@ == self.name(),
    {
        match self {
            DnssecStatus::Secure => "secure",
            DnssecStatus::Insecure => "insecure",
            DnssecStatus::Bogus => "bogus",
            DnssecStatus::Indeterminate => "indeterminate",
        }
    }
}

} // verus!

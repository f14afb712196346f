//! `dapctl audit [PATH]`.

use vstd::prelude::*;

use crate::audit::Severity;

verus! {

#[derive(Debug, Clone)]
pub struct Args {
    /// Library to audit (defaults to the first sync profile's source).
    pub path: Option<String>,
    /// Emit JSON instead of the human table.
    pub json: bool,
    /// Only report issues at or above this severity.
    pub min_severity: SeverityArg,
    /// Limit output to the first N albums.
    pub limit: Option<usize>,
}

/// The severity levels accepted on the command line: high, med, low.
#[derive(Debug, Clone, Copy, PartialEq, Eq, Structural)]
pub enum SeverityArg {
    High,
    Med,
    Low,
}

pub open spec fn severity_of_arg(a: SeverityArg) -> Severity {
    match a {
        SeverityArg::High => Severity::High,
        SeverityArg::Med => Severity::Medium,
        SeverityArg::Low => Severity::Low,
    }
}

impl SeverityArg {
    /// The severity a command-line level selects.
    pub fn severity(&self) -> (r: Severity)
        ensures
            r == severity_of_arg(*self),
    {
        match self {
            SeverityArg::High => Severity::High,
            SeverityArg::Med => Severity::Medium,
            SeverityArg::Low => Severity::Low,
        }
    }
}

impl From<&SeverityArg> for Severity {
    fn from(a: &SeverityArg) -> (r: Severity) {
        a.severity()
    }
}

impl vstd::std_specs::convert::FromSpecImpl<&SeverityArg> for Severity {
    open spec fn obeys_from_spec() -> bool {
        true
    }

    open spec fn from_spec(a: &SeverityArg) -> Severity {
        severity_of_arg(*a)
    }
}

} // verus!

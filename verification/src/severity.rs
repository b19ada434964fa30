//! Finding severity and confidence scales.

use vstd::prelude::*;

verus! {

/// How bad the consequence would be if the matched pattern were a real,
/// exploitable bug. The declaration order is most-severe-first: `Critical`
/// sorts before everything else.
#[derive(Debug, Clone, Copy, PartialEq, Eq, Structural, PartialOrd, Ord, Hash)]
pub enum Severity {
    /// Direct, realistic compromise with no further conditions required.
    Critical,
    High,
    Medium,
    Low,
    /// Informational only; not a security finding on its own.
    Info,
}

/// Position of a severity in the most-severe-first order (`Critical` is 0).
pub open spec fn severity_rank(s: Severity) -> nat {
    match s {
        Severity::Critical => 0,
        Severity::High => 1,
        Severity::Medium => 2,
        Severity::Low => 3,
        Severity::Info => 4,
    }
}

/// `a` is at least as severe as `b`.
pub open spec fn at_least_as_severe(a: Severity, b: Severity) -> bool {
    severity_rank(a) <= severity_rank(b)
}

impl Severity {
    /// Position in the most-severe-first order (`Critical` is 0, `Info` is 4).
    pub fn rank(self) -> (r: u8)
        ensures
            r as nat == severity_rank(self),
    {
        match self {
            Severity::Critical => 0,
            Severity::High => 1,
            Severity::Medium => 2,
            Severity::Low => 3,
            Severity::Info => 4,
        }
    }

    /// Whether `self` is at least as severe as `other` (`Critical` is at
    /// least as severe as everything).
    pub fn is_at_least(self, other: Severity) -> (r: bool)
        ensures
            r == at_least_as_severe(self, other),
    {
        self.rank() <= other.rank()
    }
}

/// The severity order is a strict total order: two severities of equal
/// rank are the same severity, so sorting by rank yields exactly
/// `Critical, High, Medium, Low, Info`.
pub proof fn law_severity_rank_injective(a: Severity, b: Severity)
    ensures
        severity_rank(a) == severity_rank(b) <==> a == b,
        severity_rank(a) < 5,
{
}

/// How sure the scanner is that the matched pattern is really present,
/// independent of how severe it would be if so.
#[derive(Debug, Clone, Copy, PartialEq, Eq, Structural, Hash)]
pub enum Confidence {
    /// The pattern is matched and the absence of a known mitigating pattern
    /// is positively confirmed.
    High,
    /// The pattern is matched but visibility is incomplete.
    Medium,
    /// The pattern is matched on weak/structural grounds only.
    Low,
}

} // verus!

//! Suppressed findings: detected, but hidden from the active result set by
//! an inline directive or a config entry, with a required reason.

use vstd::prelude::*;

use crate::finding::Finding;

verus! {

/// Where a suppression came from.
#[derive(Debug, Clone, Copy, PartialEq, Eq, Structural)]
pub enum SuppressionKind {
    /// An inline `// zkguard:ignore RULE_ID reason="..."` directive.
    Inline,
    /// A `[[suppress]]` entry in `zkguard.toml`.
    Config,
}

/// A finding that was detected but suppressed, plus why.
#[derive(Debug, Clone, PartialEq)]
pub struct SuppressedFinding {
    /// The original, unchanged finding.
    pub finding: Finding,
    /// The required, non-empty human explanation.
    pub reason: String,
    /// How the suppression was declared.
    pub suppressed_by: SuppressionKind,
}

impl SuppressedFinding {
    /// A suppressed finding.
    pub fn new(finding: Finding, reason: &str, suppressed_by: SuppressionKind) -> (s: SuppressedFinding)
        ensures
            s.finding == finding,
            s.reason@ == reason@,
            s.suppressed_by == suppressed_by,
    {
        SuppressedFinding { finding, reason: reason.to_owned(), suppressed_by }
    }
}

} // verus!

//! [`ScanResult`]: the aggregate produced by one scan run.

use vstd::prelude::*;

use crate::finding::Finding;
use crate::severity::{at_least_as_severe, severity_rank, Severity};
use crate::skipped::SkippedFile;
use crate::suppression::SuppressedFinding;

verus! {

/// The findings of `s` whose severity is exactly `sev`, in their original
/// order.
pub open spec fn with_severity(s: Seq<Finding>, sev: Severity) -> Seq<Finding>
    decreases s.len(),
{
    if s.len() == 0 {
        seq![]
    } else if s.last().severity == sev {
        with_severity(s.drop_last(), sev).push(s.last())
    } else {
        with_severity(s.drop_last(), sev)
    }
}

/// `s` reordered most-severe-first, keeping the original order among
/// findings of equal severity.
pub open spec fn sorted_most_severe_first(s: Seq<Finding>) -> Seq<Finding> {
    with_severity(s, Severity::Critical) + with_severity(s, Severity::High) + with_severity(
        s,
        Severity::Medium,
    ) + with_severity(s, Severity::Low) + with_severity(s, Severity::Info)
}

/// Some finding of `s` is at least as severe as `sev`.
pub open spec fn any_at_or_above(s: Seq<Finding>, sev: Severity) -> bool {
    exists|i: int| 0 <= i < s.len() && at_least_as_severe(#[trigger] s[i].severity, sev)
}

/// All findings from one scan run, plus minimal run metadata.
#[derive(Debug, Clone, PartialEq)]
pub struct ScanResult {
    pub findings: Vec<Finding>,
    /// Number of source files visited during this scan.
    pub files_scanned: u32,
    /// Stable rule IDs that were executed during this scan.
    pub rules_run: Vec<String>,
    /// Number of findings that were detected but suppressed.
    pub suppressed_count: u32,
    /// The suppressed findings themselves, populated only on request.
    pub suppressed: Vec<SuppressedFinding>,
    /// Files that discovery located but could not read.
    pub skipped: Vec<SkippedFile>,
}

impl Default for ScanResult {
    fn default() -> (r: ScanResult)
        ensures
            r.findings@.len() == 0,
            r.files_scanned == 0,
            r.rules_run@.len() == 0,
            r.suppressed_count == 0,
            r.suppressed@.len() == 0,
            r.skipped@.len() == 0,
    {
        ScanResult {
            findings: Vec::new(),
            files_scanned: 0,
            rules_run: Vec::new(),
            suppressed_count: 0,
            suppressed: Vec::new(),
            skipped: Vec::new(),
        }
    }
}

/// The findings of `v` with severity `sev`, in order.
pub fn filter_severity(v: &Vec<Finding>, sev: Severity) -> (r: Vec<Finding>)
    ensures
        r@ == with_severity(v@, sev),
{
    let mut r: Vec<Finding> = Vec::new();
    let mut i: usize = 0;
    while i < v.len()
        invariant
            i <= v@.len(),
            r@ == with_severity(v@.take(i as int), sev),
        decreases v@.len() - i,
    {
        assert(v@.take(i + 1).drop_last() =~= v@.take(i as int));
        if v[i].severity == sev {
            r.push(v[i].duplicate());
        }
        i += 1;
    }
    assert(v@.take(v@.len() as int) =~= v@);
    r
}

impl ScanResult {
    /// Empty result for a scan that ran zero rules over zero files.
    pub fn new() -> (r: ScanResult)
        ensures
            r.findings@.len() == 0,
            r.files_scanned == 0,
            r.rules_run@.len() == 0,
            r.suppressed_count == 0,
            r.suppressed@.len() == 0,
            r.skipped@.len() == 0,
    {
        ScanResult::default()
    }

    /// Total number of findings, irrespective of severity.
    pub fn total_findings(&self) -> (n: usize)
        ensures
            n == self.findings@.len(),
    {
        self.findings.len()
    }

    /// Number of findings at exactly the given severity.
    pub fn count_by_severity(&self, severity: Severity) -> (n: usize)
        ensures
            n == with_severity(self.findings@, severity).len(),
    {
        let mut n: usize = 0;
        let mut i: usize = 0;
        while i < self.findings.len()
            invariant
                i <= self.findings@.len(),
                n == with_severity(self.findings@.take(i as int), severity).len(),
                n <= i,
            decreases self.findings@.len() - i,
        {
            assert(self.findings@.take(i + 1).drop_last() =~= self.findings@.take(i as int));
            if self.findings[i].severity == severity {
                n += 1;
            }
            i += 1;
        }
        assert(self.findings@.take(self.findings@.len() as int) =~= self.findings@);
        n
    }

    /// Whether any finding is at least as severe as `severity` (for
    /// example, a `Critical` finding is at or above `High`).
    pub fn has_finding_at_or_above(&self, severity: Severity) -> (b: bool)
        ensures
            b == any_at_or_above(self.findings@, severity),
    {
        let mut i: usize = 0;
        while i < self.findings.len()
            invariant
                i <= self.findings@.len(),
                forall|j: int| 0 <= j < i ==> !at_least_as_severe(#[trigger] self.findings@[j].severity, severity),
            decreases self.findings@.len() - i,
        {
            if self.findings[i].severity.is_at_least(severity) {
                return true;
            }
            i += 1;
        }
        false
    }

    /// The findings sorted most-severe-first (`Critical` ... `Info`), equal
    /// severities keeping their original order. Does not mutate `self`.
    pub fn sorted_by_severity(&self) -> (r: Vec<Finding>)
        ensures
            r@ == sorted_most_severe_first(self.findings@),
    {
        let mut r = filter_severity(&self.findings, Severity::Critical);
        let mut h = filter_severity(&self.findings, Severity::High);
        r.append(&mut h);
        let mut m = filter_severity(&self.findings, Severity::Medium);
        r.append(&mut m);
        let mut l = filter_severity(&self.findings, Severity::Low);
        r.append(&mut l);
        let mut n = filter_severity(&self.findings, Severity::Info);
        r.append(&mut n);
        r
    }
}

} // verus!

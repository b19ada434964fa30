//! The [`Finding`] type: the only artifact that crosses from analysis into
//! reporting.

use vstd::prelude::*;

use crate::severity::{Confidence, Severity};

verus! {

/// A single, self-contained scanner result. `file` is the path of the
/// source as the scan reported it.
#[derive(Debug, Clone, PartialEq)]
pub struct Finding {
    /// Stable rule identifier, e.g. `"NOIR-PUBLIC-001"`.
    pub rule_id: String,
    /// Short human-readable title.
    pub title: String,
    pub severity: Severity,
    pub confidence: Confidence,
    /// Path to the source file containing the matched pattern.
    pub file: String,
    /// 1-based line of the matched expression/statement, if known.
    pub line: Option<u32>,
    /// 1-based column of the matched expression/statement, if known.
    pub column: Option<u32>,
    /// The literal (or closely paraphrased) matched source snippet.
    pub evidence: String,
    /// Why this pattern is a security concern.
    pub why_it_matters: String,
    /// Guidance for resolving or documenting the finding.
    pub remediation: String,
}

/// The mathematical content of a [`Finding`].
pub ghost struct FindingView {
    pub rule_id: Seq<char>,
    pub title: Seq<char>,
    pub severity: Severity,
    pub confidence: Confidence,
    pub file: Seq<char>,
    pub line: Option<u32>,
    pub column: Option<u32>,
    pub evidence: Seq<char>,
    pub why_it_matters: Seq<char>,
    pub remediation: Seq<char>,
}

impl View for Finding {
    type V = FindingView;

    open spec fn view(&self) -> FindingView {
        FindingView {
            rule_id: self.rule_id@,
            title: self.title@,
            severity: self.severity,
            confidence: self.confidence,
            file: self.file@,
            line: self.line,
            column: self.column,
            evidence: self.evidence@,
            why_it_matters: self.why_it_matters@,
            remediation: self.remediation@,
        }
    }
}

/// A finding located at a line, with no column: what every rule emits.
pub open spec fn located_finding(
    rule_id: Seq<char>,
    title: Seq<char>,
    severity: Severity,
    confidence: Confidence,
    file: Seq<char>,
    line: u32,
    evidence: Seq<char>,
    why_it_matters: Seq<char>,
    remediation: Seq<char>,
) -> FindingView {
    FindingView {
        rule_id,
        title,
        severity,
        confidence,
        file,
        line: Some(line),
        column: None,
        evidence,
        why_it_matters,
        remediation,
    }
}

/// Builds a [`located_finding`].
pub fn make_located_finding(
    rule_id: &str,
    title: &str,
    severity: Severity,
    confidence: Confidence,
    file: &str,
    line: u32,
    evidence: &str,
    why_it_matters: &str,
    remediation: &str,
) -> (f: Finding)
    ensures
        f@ == located_finding(
            rule_id@,
            title@,
            severity,
            confidence,
            file@,
            line,
            evidence@,
            why_it_matters@,
            remediation@,
        ),
{
    Finding::new(rule_id, title, severity, confidence, file)
        .with_line(line)
        .with_evidence(evidence)
        .with_why_it_matters(why_it_matters)
        .with_remediation(remediation)
}

impl Finding {
    /// A finding with the identity fields set, no location and empty texts;
    /// the `with_*` setters fill in the rest.
    pub fn new(rule_id: &str, title: &str, severity: Severity, confidence: Confidence, file: &str) -> (f: Finding)
        ensures
            f.rule_id@ == rule_id@,
            f.title@ == title@,
            f.severity == severity,
            f.confidence == confidence,
            f.file@ == file@,
            f.line is None,
            f.column is None,
            f.evidence@ == Seq::<char>::empty(),
            f.why_it_matters@ == Seq::<char>::empty(),
            f.remediation@ == Seq::<char>::empty(),
    {
        Finding {
            rule_id: rule_id.to_owned(),
            title: title.to_owned(),
            severity,
            confidence,
            file: file.to_owned(),
            line: None,
            column: None,
            evidence: String::new(),
            why_it_matters: String::new(),
            remediation: String::new(),
        }
    }

    /// Sets the 1-based line number.
    pub fn with_line(self, line: u32) -> (f: Finding)
        ensures
            f == (Finding { line: Some(line), ..self }),
    {
        Finding { line: Some(line), ..self }
    }

    /// Sets the 1-based column number.
    pub fn with_column(self, column: u32) -> (f: Finding)
        ensures
            f == (Finding { column: Some(column), ..self }),
    {
        Finding { column: Some(column), ..self }
    }

    /// Sets the matched source evidence.
    pub fn with_evidence(self, evidence: &str) -> (f: Finding)
        ensures
            f.evidence@ == evidence@,
            f == (Finding { evidence: f.evidence, ..self }),
    {
        Finding { evidence: evidence.to_owned(), ..self }
    }

    /// Sets the "why it matters" explanation.
    pub fn with_why_it_matters(self, why_it_matters: &str) -> (f: Finding)
        ensures
            f.why_it_matters@ == why_it_matters@,
            f == (Finding { why_it_matters: f.why_it_matters, ..self }),
    {
        Finding { why_it_matters: why_it_matters.to_owned(), ..self }
    }

    /// Sets the remediation guidance.
    pub fn with_remediation(self, remediation: &str) -> (f: Finding)
        ensures
            f.remediation@ == remediation@,
            f == (Finding { remediation: f.remediation, ..self }),
    {
        Finding { remediation: remediation.to_owned(), ..self }
    }

    /// A copy equal to `self`.
    pub fn duplicate(&self) -> (f: Finding)
        ensures
            f == *self,
    {
        Finding {
            rule_id: self.rule_id.clone(),
            title: self.title.clone(),
            severity: self.severity,
            confidence: self.confidence,
            file: self.file.clone(),
            line: self.line,
            column: self.column,
            evidence: self.evidence.clone(),
            why_it_matters: self.why_it_matters.clone(),
            remediation: self.remediation.clone(),
        }
    }
}

} // verus!

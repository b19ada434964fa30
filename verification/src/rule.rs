//! Rule metadata, the source view rules scan, and the rule traits.

use vstd::prelude::*;

use crate::finding::Finding;
use crate::severity::{Confidence, Severity};

verus! {

/// Static, rule-level metadata: the part of a rule that does not vary per
/// finding.
#[derive(Debug, Clone, PartialEq)]
pub struct RuleMetadata {
    /// Stable identifier, e.g. `"NOIR-PUBLIC-001"`.
    pub rule_id: String,
    /// Human-readable title, used as `Finding::title`.
    pub title: String,
    /// Default severity for findings from this rule.
    pub default_severity: Severity,
    /// Default confidence for findings from this rule.
    pub default_confidence: Confidence,
    /// One- or two-sentence description of what the rule detects.
    pub description: String,
}

/// The mathematical content of a [`RuleMetadata`].
pub ghost struct MetadataView {
    pub rule_id: Seq<char>,
    pub title: Seq<char>,
    pub default_severity: Severity,
    pub default_confidence: Confidence,
    pub description: Seq<char>,
}

impl View for RuleMetadata {
    type V = MetadataView;

    open spec fn view(&self) -> MetadataView {
        MetadataView {
            rule_id: self.rule_id@,
            title: self.title@,
            default_severity: self.default_severity,
            default_confidence: self.default_confidence,
            description: self.description@,
        }
    }
}

impl RuleMetadata {
    /// Metadata with every field given.
    pub fn new(
        rule_id: &str,
        title: &str,
        default_severity: Severity,
        default_confidence: Confidence,
        description: &str,
    ) -> (m: RuleMetadata)
        ensures
            m.rule_id@ == rule_id@,
            m.title@ == title@,
            m.default_severity == default_severity,
            m.default_confidence == default_confidence,
            m.description@ == description@,
    {
        RuleMetadata {
            rule_id: rule_id.to_owned(),
            title: title.to_owned(),
            default_severity,
            default_confidence,
            description: description.to_owned(),
        }
    }

    /// A copy equal to `self`.
    pub fn duplicate(&self) -> (m: RuleMetadata)
        ensures
            m == *self,
    {
        RuleMetadata {
            rule_id: self.rule_id.clone(),
            title: self.title.clone(),
            default_severity: self.default_severity,
            default_confidence: self.default_confidence,
            description: self.description.clone(),
        }
    }
}

/// One source file to be scanned: its reported path and its text.
#[derive(Debug, Clone, PartialEq)]
pub struct SourceView {
    /// Path to the source file, used to populate `Finding::file`.
    pub path: String,
    /// Raw source text of the file.
    pub source: String,
}

impl SourceView {
    /// A source view of `source` at `path`.
    pub fn new(path: &str, source: &str) -> (v: SourceView)
        ensures
            v.path@ == path@,
            v.source@ == source@,
    {
        SourceView { path: path.to_owned(), source: source.to_owned() }
    }
}

/// Implemented by every per-file rule: static metadata plus one analysis
/// of a single source file.
pub trait Rule {
    /// This rule's static metadata.
    fn metadata(&self) -> RuleMetadata;

    /// Analyzes one source file and returns zero or more findings.
    fn check(&self, source: &SourceView) -> Vec<Finding>;
}

/// Implemented by rules that reason over a whole project at once.
pub trait ProjectRule {
    /// This rule's static metadata.
    fn metadata(&self) -> RuleMetadata;

    /// Analyzes every source of the project and returns zero or more
    /// findings.
    fn check_project(&self, sources: &[SourceView]) -> Vec<Finding>;
}

} // verus!

use zkguard::finding::Finding;
use zkguard::rule::{Rule, RuleMetadata, SourceView};
use zkguard::scan::ScanResult;
use zkguard::severity::{Confidence, Severity};
use zkguard::skipped::{SkipKind, SkippedFile};
use zkguard::suppression::{SuppressedFinding, SuppressionKind};

fn finding(rule_id: &str, severity: Severity) -> Finding {
    Finding::new(rule_id, "title", severity, Confidence::Medium, "main.nr")
}

fn sample_finding() -> Finding {
    Finding::new(
        "NOIR-PUBLIC-001",
        "Public input declared but unused in a constraint-relevant expression",
        Severity::High,
        Confidence::Medium,
        "src/main.nr",
    )
    .with_line(3)
    .with_column(5)
    .with_evidence("pub claimed_total: Field")
    .with_why_it_matters("A public input that never reaches an assert/constrain is not bound by the proof.")
    .with_remediation("Bind every public input to at least one constraint.")
}

#[test]
fn builder_sets_all_fields() {
    let finding = sample_finding();
    assert_eq!(finding.rule_id, "NOIR-PUBLIC-001");
    assert_eq!(finding.severity, Severity::High);
    assert_eq!(finding.confidence, Confidence::Medium);
    assert_eq!(finding.file, "src/main.nr");
    assert_eq!(finding.line, Some(3));
    assert_eq!(finding.column, Some(5));
    assert!(!finding.evidence.is_empty());
    assert!(!finding.why_it_matters.is_empty());
    assert!(!finding.remediation.is_empty());
}

#[test]
fn new_finding_has_no_location_or_text() {
    let f = Finding::new("R", "T", Severity::Low, Confidence::High, "a.nr");
    assert_eq!(f.title, "T");
    assert_eq!(f.line, None);
    assert_eq!(f.column, None);
    assert!(f.evidence.is_empty());
    assert!(f.why_it_matters.is_empty());
    assert!(f.remediation.is_empty());
    assert_eq!(f.duplicate(), f);
}

struct AlwaysEmptyRule(RuleMetadata);

impl Rule for AlwaysEmptyRule {
    fn metadata(&self) -> RuleMetadata {
        self.0.clone()
    }

    fn check(&self, _source: &SourceView) -> Vec<Finding> {
        Vec::new()
    }
}

#[test]
fn rule_trait_is_object_safe_and_callable() {
    let rule = AlwaysEmptyRule(RuleMetadata::new(
        "NOIR-PUBLIC-001",
        "Public input declared but unused",
        Severity::High,
        Confidence::Medium,
        "Detects public inputs never used in a constraint-relevant expression.",
    ));
    let source = SourceView::new("src/main.nr", "fn main() {}");

    assert_eq!(rule.metadata().rule_id, "NOIR-PUBLIC-001");
    assert!(rule.check(&source).is_empty());

    let boxed: Box<dyn Rule> = Box::new(AlwaysEmptyRule(RuleMetadata::new(
        "ZK-TEST-001",
        "Circuit has no negative tests",
        Severity::Low,
        Confidence::High,
        "Detects missing should_fail tests.",
    )));
    assert_eq!(boxed.metadata().rule_id, "ZK-TEST-001");
}

#[test]
fn counts_by_severity() {
    let result = ScanResult {
        findings: vec![finding("R1", Severity::High), finding("R2", Severity::High), finding("R3", Severity::Low)],
        files_scanned: 2,
        rules_run: vec!["R1".to_string(), "R2".to_string(), "R3".to_string()],
        ..Default::default()
    };

    assert_eq!(result.total_findings(), 3);
    assert_eq!(result.count_by_severity(Severity::High), 2);
    assert_eq!(result.count_by_severity(Severity::Low), 1);
    assert_eq!(result.count_by_severity(Severity::Critical), 0);
}

#[test]
fn sorts_most_severe_first() {
    let result = ScanResult {
        findings: vec![finding("R1", Severity::Low), finding("R2", Severity::Critical), finding("R3", Severity::Medium)],
        files_scanned: 1,
        rules_run: vec![],
        ..Default::default()
    };

    let sorted = result.sorted_by_severity();
    let severities: Vec<Severity> = sorted.iter().map(|f| f.severity).collect();
    assert_eq!(severities, [Severity::Critical, Severity::Medium, Severity::Low]);
}

#[test]
fn sorting_keeps_equal_severities_in_input_order() {
    let result = ScanResult {
        findings: vec![
            finding("A", Severity::Low),
            finding("B", Severity::High),
            finding("C", Severity::Low),
            finding("D", Severity::High),
        ],
        ..Default::default()
    };
    let ids: Vec<String> = result.sorted_by_severity().iter().map(|f| f.rule_id.clone()).collect();
    assert_eq!(ids, ["B", "D", "A", "C"]);
    // The result itself is left untouched.
    assert_eq!(result.findings[0].rule_id, "A");
}

#[test]
fn has_finding_at_or_above_threshold() {
    let result = ScanResult {
        findings: vec![finding("R1", Severity::Medium)],
        files_scanned: 1,
        rules_run: vec![],
        ..Default::default()
    };

    assert!(result.has_finding_at_or_above(Severity::Medium));
    assert!(result.has_finding_at_or_above(Severity::Low));
    assert!(!result.has_finding_at_or_above(Severity::High));
}

#[test]
fn threshold_is_monotone_across_all_levels() {
    let result = ScanResult { findings: vec![finding("R1", Severity::Low)], ..Default::default() };
    assert!(result.has_finding_at_or_above(Severity::Info));
    assert!(result.has_finding_at_or_above(Severity::Low));
    assert!(!result.has_finding_at_or_above(Severity::Medium));
    assert!(!result.has_finding_at_or_above(Severity::High));
    assert!(!result.has_finding_at_or_above(Severity::Critical));
    assert!(!ScanResult::new().has_finding_at_or_above(Severity::Info));
}

#[test]
fn default_is_empty() {
    let result = ScanResult::new();
    assert_eq!(result.total_findings(), 0);
    assert_eq!(result.files_scanned, 0);
    assert!(result.rules_run.is_empty());
    assert_eq!(result.suppressed_count, 0);
    assert!(result.suppressed.is_empty());
    assert!(result.skipped.is_empty());
}

#[test]
fn ordering_is_most_severe_first() {
    let mut levels = [Severity::Low, Severity::Critical, Severity::Info, Severity::High, Severity::Medium];
    levels.sort();
    assert_eq!(levels, [Severity::Critical, Severity::High, Severity::Medium, Severity::Low, Severity::Info]);
}

#[test]
fn rank_and_is_at_least_follow_declaration_order() {
    assert_eq!(Severity::Critical.rank(), 0);
    assert_eq!(Severity::Info.rank(), 4);
    assert!(Severity::Critical.is_at_least(Severity::Info));
    assert!(Severity::Medium.is_at_least(Severity::Medium));
    assert!(!Severity::Low.is_at_least(Severity::High));
}

#[test]
fn skipped_and_suppressed_records_keep_their_fields() {
    let s = SkippedFile::new("src/bad.nr", "not valid UTF-8", SkipKind::NonUtf8);
    assert_eq!(s.path, "src/bad.nr");
    assert_eq!(s.reason, "not valid UTF-8");
    assert_eq!(s.kind, SkipKind::NonUtf8);

    let f = finding("R1", Severity::High);
    let sf = SuppressedFinding::new(f.clone(), "documented exception", SuppressionKind::Config);
    assert_eq!(sf.finding, f);
    assert_eq!(sf.reason, "documented exception");
    assert_eq!(sf.suppressed_by, SuppressionKind::Config);
}

use zkguard::finding::Finding;
use zkguard::report::labels::location_suffix;
use zkguard::report::sarif::{level_for, sarif_log, security_severity_for, uri_for, SARIF_VERSION, TOOL_NAME};
use zkguard::report::{human, markdown};
use zkguard::rule::RuleMetadata;
use zkguard::scan::ScanResult;
use zkguard::severity::{Confidence, Severity};
use zkguard::skipped::{SkipKind, SkippedFile};
use zkguard::suppression::{SuppressedFinding, SuppressionKind};

fn sample_finding() -> Finding {
    Finding::new(
        "NOIR-PUBLIC-001",
        "Public input declared but unused in a constraint-relevant expression",
        Severity::High,
        Confidence::Medium,
        "src/main.nr",
    )
    .with_line(10)
    .with_evidence("pub claimed_total: Field")
    .with_why_it_matters("A public input that never reaches an assert is not bound.")
    .with_remediation("Bind every public input to at least one constraint.")
}

fn sample_result() -> ScanResult {
    ScanResult {
        findings: vec![sample_finding()],
        files_scanned: 1,
        rules_run: vec!["NOIR-PUBLIC-001".to_string()],
        ..Default::default()
    }
}

fn sample_rules() -> Vec<RuleMetadata> {
    vec![RuleMetadata::new(
        "NOIR-PUBLIC-001",
        "Public input declared but unused in a constraint-relevant expression",
        Severity::High,
        Confidence::Medium,
        "Detects `pub` parameters of `fn main` that never reach a constraint.",
    )]
}

// ---------------------------------------------------------------- human

#[test]
fn renders_finding_block_and_summary() {
    let text = human::render(&sample_result());
    assert!(text.contains("[HIGH] Public input declared but unused"));
    assert!(text.contains("NOIR-PUBLIC-001"));
    assert!(text.contains("src/main.nr:10"));
    assert!(text.contains("confidence: medium"));
    assert!(text.contains("evidence:   pub claimed_total: Field"));
    assert!(text.contains("Summary:"));
    assert!(text.contains("total:     1"));
}

#[test]
fn clean_scan_prints_no_findings_and_zero_summary() {
    let result = ScanResult {
        findings: vec![],
        files_scanned: 4,
        rules_run: vec!["NOIR-PUBLIC-001".to_string()],
        ..Default::default()
    };
    let text = human::render(&result);
    assert!(text.starts_with("No findings.\n"));
    assert!(text.contains("files scanned: 4"));
    assert!(text.contains("total:     0"));
}

#[test]
fn human_output_is_deterministic() {
    let result = sample_result();
    assert_eq!(human::render(&result), human::render(&result));
}

fn human_summary(files: u32, rules: usize, counts: [usize; 5], total: usize) -> String {
    let labels = ["CRITICAL", "HIGH", "MEDIUM", "LOW", "INFO"];
    let mut s = format!("Summary:\n  files scanned: {files}\n  rules run:     {rules}\n");
    for (label, n) in labels.iter().zip(counts.iter()) {
        s.push_str(&format!("  {:<10} {}\n", format!("{label}:"), n));
    }
    s.push_str(&format!("  total:     {total}\n"));
    s
}

#[test]
fn human_report_is_exact() {
    let f = sample_finding();
    let expected = format!(
        "[HIGH] {} (NOIR-PUBLIC-001)\n  location:   src/main.nr:10\n  confidence: medium\n  evidence:   {}\n  why:        {}\n  fix:        {}\n\n{}",
        f.title,
        f.evidence,
        f.why_it_matters,
        f.remediation,
        human_summary(1, 1, [0, 1, 0, 0, 0], 1)
    );
    assert_eq!(human::render(&sample_result()), expected);

    let clean = ScanResult { files_scanned: 4, ..Default::default() };
    assert_eq!(human::render(&clean), format!("No findings.\n\n{}", human_summary(4, 0, [0; 5], 0)));
}

#[test]
fn human_report_lists_skipped_and_suppressed() {
    let mut result = ScanResult::new();
    result.suppressed_count = 1;
    result.suppressed = vec![SuppressedFinding::new(sample_finding(), "documented exception", SuppressionKind::Config)];
    result.skipped = vec![SkippedFile::new("src/bad.nr", "invalid UTF-8", SkipKind::NonUtf8)];
    let text = human::render(&result);
    let expected = format!(
        "No findings.\n\n{}  suppressed: 1\n  skipped:   1\n\nWarnings (skipped files):\n  src/bad.nr [non-utf8]: invalid UTF-8\n\nSuppressed findings:\n  [HIGH] {} (NOIR-PUBLIC-001) src/main.nr:10 \u{2014} via zkguard.toml: documented exception\n",
        human_summary(0, 0, [0; 5], 0),
        sample_finding().title
    );
    assert_eq!(text, expected);
}

// ---------------------------------------------------------------- markdown

#[test]
fn renders_summary_and_finding_sections() {
    let md = markdown::render(&sample_result());
    assert!(md.starts_with("# zk-guard scan report\n"));
    assert!(md.contains("## Summary"));
    assert!(md.contains("Total findings: **1**"));
    assert!(md.contains("## Findings"));
    assert!(md.contains("NOIR-PUBLIC-001"));
    assert!(md.contains("src/main.nr:10"));
    assert!(md.contains("pub claimed_total: Field"));
    assert!(md.contains("Why it matters"));
    assert!(md.contains("Remediation"));
}

#[test]
fn clean_scan_has_no_findings_section() {
    let result = ScanResult {
        findings: vec![],
        files_scanned: 3,
        rules_run: vec!["NOIR-PUBLIC-001".to_string()],
        ..Default::default()
    };
    let md = markdown::render(&result);
    assert!(md.contains("Total findings: **0**"));
    assert!(!md.contains("## Findings"));
    assert!(md.contains("No findings reached the configured failure threshold."));
}

#[test]
fn findings_are_sorted_most_severe_first() {
    let result = ScanResult {
        findings: vec![
            Finding::new("R-LOW", "low title", Severity::Low, Confidence::Low, "a.nr"),
            Finding::new("R-CRIT", "critical title", Severity::Critical, Confidence::High, "b.nr"),
        ],
        files_scanned: 2,
        rules_run: vec![],
        ..Default::default()
    };
    let md = markdown::render(&result);
    let crit_idx = md.find("R-CRIT").expect("R-CRIT present");
    let low_idx = md.find("R-LOW").expect("R-LOW present");
    assert!(crit_idx < low_idx, "critical finding must be rendered before low finding");
}

#[test]
fn location_without_line_omits_suffix() {
    assert_eq!(location_suffix(None, None), "");
    assert_eq!(location_suffix(Some(5), None), ":5");
    assert_eq!(location_suffix(Some(5), Some(2)), ":5:2");
    assert_eq!(location_suffix(None, Some(2)), "");
}

#[test]
fn markdown_output_is_deterministic() {
    let result = sample_result();
    assert_eq!(markdown::render(&result), markdown::render(&result));
}

fn md_summary(files: u32, rules: &str, n_rules: usize, counts: [usize; 5], total: usize) -> String {
    let labels = ["CRITICAL", "HIGH", "MEDIUM", "LOW", "INFO"];
    let mut s = format!(
        "## Summary\n\n- Files scanned: **{files}**\n- Rules run: **{n_rules}** ({rules})\n- Total findings: **{total}**\n\n| Severity | Count |\n|---|---|\n"
    );
    for (label, n) in labels.iter().zip(counts.iter()) {
        s.push_str(&format!("| {label} | {n} |\n"));
    }
    s.push('\n');
    s
}

#[test]
fn markdown_report_is_exact() {
    let f = sample_finding();
    let expected = format!(
        "# zk-guard scan report\n\n{}## Findings\n\n### 1. {} (NOIR-PUBLIC-001)\n\n| Field | Value |\n|---|---|\n| Rule ID | `NOIR-PUBLIC-001` |\n| Severity | HIGH |\n| Confidence | medium |\n| Location | `src/main.nr:10` |\n\n**Evidence**\n\n```\n{}\n```\n\n**Why it matters**\n\n{}\n\n**Remediation**\n\n{}\n\n",
        md_summary(1, "`NOIR-PUBLIC-001`", 1, [0, 1, 0, 0, 0], 1),
        f.title,
        f.evidence,
        f.why_it_matters,
        f.remediation
    );
    assert_eq!(markdown::render(&sample_result()), expected);

    let clean = ScanResult {
        files_scanned: 3,
        rules_run: vec!["A".to_string(), "B".to_string()],
        ..Default::default()
    };
    assert_eq!(
        markdown::render(&clean),
        format!(
            "# zk-guard scan report\n\n{}No findings reached the configured failure threshold.\n",
            md_summary(3, "`A`, `B`", 2, [0; 5], 0)
        )
    );
    assert!(markdown::render(&ScanResult::new()).contains("- Rules run: **0** (none)\n"));
}

#[test]
fn markdown_report_tables_skipped_and_suppressed() {
    let mut result = ScanResult::new();
    result.suppressed_count = 2;
    result.suppressed = vec![SuppressedFinding::new(sample_finding(), "ok", SuppressionKind::Inline)];
    result.skipped = vec![SkippedFile::new("x.nr", "denied", SkipKind::Unreadable)];
    let md = markdown::render(&result);
    assert!(md.contains("- Suppressed: **2**\n"));
    assert!(md.contains("- Skipped (unreadable/non-UTF-8): **1**\n"));
    assert!(md.contains("| `x.nr` | unreadable | denied |\n"));
    assert!(md.contains("| `NOIR-PUBLIC-001` | `src/main.nr:10` | inline directive | ok |\n"));
    assert!(md.find("## Skipped files").unwrap() < md.find("## Suppressed findings").unwrap());
}

// ---------------------------------------------------------------- sarif

#[test]
fn renders_wellformed_sarif_2_1_0() {
    let log = sarif_log(&sample_result(), &sample_rules());
    assert_eq!(SARIF_VERSION, "2.1.0");
    assert_eq!(TOOL_NAME, "zk-guard");
    let descriptor = &log.descriptors[0];
    assert_eq!(descriptor.id, "NOIR-PUBLIC-001");
    assert_eq!(descriptor.level, "error");
    assert_eq!(descriptor.security_severity, "8.0");
    assert_eq!(descriptor.confidence, "medium");
    assert_eq!(descriptor.name, sample_rules()[0].title);
    assert_eq!(descriptor.full_description, sample_rules()[0].description);
}

#[test]
fn result_maps_finding_fields() {
    let log = sarif_log(&sample_result(), &sample_rules());
    let result = &log.results[0];
    assert_eq!(result.rule_id, "NOIR-PUBLIC-001");
    assert_eq!(result.rule_index, Some(0));
    assert_eq!(result.level, "error");
    assert!(result.message.contains("bound"));
    assert_eq!(result.start_line, 10);
    assert_eq!(result.uri, "src/main.nr");
}

#[test]
fn missing_line_defaults_to_one() {
    let mut r = sample_result();
    r.findings[0].line = None;
    let log = sarif_log(&r, &sample_rules());
    assert_eq!(log.results[0].start_line, 1);
}

#[test]
fn empty_result_has_empty_results_array() {
    let log = sarif_log(&ScanResult::new(), &[]);
    assert!(log.results.is_empty());
    assert!(log.descriptors.is_empty());
}

#[test]
fn level_mapping_covers_all_severities() {
    assert_eq!(level_for(Severity::Critical), "error");
    assert_eq!(level_for(Severity::High), "error");
    assert_eq!(level_for(Severity::Medium), "warning");
    assert_eq!(level_for(Severity::Low), "note");
    assert_eq!(level_for(Severity::Info), "note");
}

#[test]
fn security_severity_scores_follow_severity() {
    assert_eq!(security_severity_for(Severity::Critical), "9.0");
    assert_eq!(security_severity_for(Severity::High), "8.0");
    assert_eq!(security_severity_for(Severity::Medium), "5.0");
    assert_eq!(security_severity_for(Severity::Low), "3.0");
    assert_eq!(security_severity_for(Severity::Info), "0.0");
}

#[test]
fn uri_normalizes_separators_and_dot_prefix() {
    assert_eq!(uri_for("./src/main.nr"), "src/main.nr");
    assert_eq!(uri_for("a/b/c.nr"), "a/b/c.nr");
    assert_eq!(uri_for(".\\src\\main.nr"), "src/main.nr");
    assert_eq!(uri_for("././src/main.nr"), "src/main.nr");
}

#[test]
fn finding_with_unknown_rule_omits_rule_index() {
    let mut r = sample_result();
    r.findings[0].rule_id = "NOT-REGISTERED".to_string();
    let log = sarif_log(&r, &sample_rules());
    assert_eq!(log.results[0].rule_index, None);
}

#[test]
fn sarif_output_is_deterministic() {
    let (r, rules) = (sample_result(), sample_rules());
    assert_eq!(sarif_log(&r, &rules), sarif_log(&r, &rules));
}

#[test]
fn sarif_message_joins_explanation_evidence_and_remediation() {
    let log = sarif_log(&sample_result(), &sample_rules());
    let f = sample_finding();
    assert_eq!(
        log.results[0].message,
        format!("{}\n\nEvidence: {}\n\nRemediation: {}", f.why_it_matters, f.evidence, f.remediation)
    );
    let bare = Finding::new("R", "Only a title", Severity::Low, Confidence::Low, "a.nr");
    let log = sarif_log(&ScanResult { findings: vec![bare], ..Default::default() }, &[]);
    assert_eq!(log.results[0].message, "Only a title");
    assert_eq!(log.results[0].level, "note");
}

#[test]
fn duplicate_rule_ids_point_at_the_last_descriptor() {
    let mut rules = sample_rules();
    rules.push(RuleMetadata::new("OTHER", "t", Severity::Low, Confidence::Low, "d"));
    rules.push(sample_rules().remove(0));
    let log = sarif_log(&sample_result(), &rules);
    assert_eq!(log.descriptors.len(), 3);
    assert_eq!(log.results[0].rule_index, Some(2));
}

use zkguard::config::{apply_suppressions, Config, ConfigError, FileSuppression};
use zkguard::finding::Finding;
use zkguard::rule::SourceView;
use zkguard::severity::{Confidence, Severity};
use zkguard::suppression::SuppressionKind;

fn finding(rule_id: &str, file: &str, line: Option<u32>) -> Finding {
    let mut f = Finding::new(rule_id, "t", Severity::High, Confidence::Low, file);
    if let Some(l) = line {
        f = f.with_line(l);
    }
    f
}

fn entry(rule: &str, path: &str, line: Option<u32>, reason: &str) -> FileSuppression {
    FileSuppression { rule: rule.to_string(), path: path.to_string(), line, reason: reason.to_string() }
}

fn suppressing(entries: Vec<FileSuppression>) -> Config {
    Config::new(None, Vec::new(), entries)
}

#[test]
fn rules_enabled_by_default_disabled_when_false() {
    let cfg = Config::new(None, vec![("NOIR-RANGE-001".to_string(), false), ("ZK-HASH-001".to_string(), true)], Vec::new());
    assert!(!cfg.is_rule_enabled("NOIR-RANGE-001"));
    assert!(cfg.is_rule_enabled("ZK-HASH-001"));
    assert!(cfg.is_rule_enabled("NOIR-PUBLIC-001"));
}

#[test]
fn later_rule_setting_replaces_earlier_one() {
    let cfg = Config::new(None, vec![("ZK-HASH-001".to_string(), false), ("ZK-HASH-001".to_string(), true)], Vec::new());
    assert!(cfg.is_rule_enabled("ZK-HASH-001"));
}

#[test]
fn fail_on_precedence_cli_over_config_over_default() {
    let cfg = Config::new(Some(Severity::High), Vec::new(), Vec::new());
    assert_eq!(cfg.effective_fail_on(Some(Severity::Critical)), Severity::Critical);
    assert_eq!(cfg.effective_fail_on(None), Severity::High);
    let empty = Config::default();
    assert_eq!(empty.effective_fail_on(None), Severity::Low);
}

#[test]
fn empty_suppress_reason_is_a_validation_error() {
    let cfg = suppressing(vec![entry("NOIR-PUBLIC-001", "src/main.nr", None, "   ")]);
    assert!(matches!(cfg.validate(), Err(ConfigError::EmptySuppressReason { index: 0 })));
}

#[test]
fn first_blank_reason_is_the_one_reported() {
    let cfg = suppressing(vec![
        entry("A", "a.nr", None, "fine"),
        entry("B", "b.nr", None, ""),
        entry("C", "c.nr", None, "\t"),
    ]);
    let err = cfg.validate().unwrap_err();
    assert_eq!(err, ConfigError::EmptySuppressReason { index: 1 });
    assert_eq!(
        err.message(),
        "zkguard.toml: [[suppress]] entry #2 has an empty reason; every suppression must state a non-empty reason"
    );
    assert!(suppressing(vec![entry("A", "a.nr", None, "fine")]).validate().is_ok());
    assert!(Config::default().validate().is_ok());
}

#[test]
fn config_error_messages_name_the_file() {
    let e = ConfigError::Io { path: "zkguard.toml".to_string(), message: "denied".to_string() };
    assert_eq!(e.message(), "could not read zkguard.toml: denied");
    let e = ConfigError::Parse { path: "x/zkguard.toml".to_string(), message: "bad".to_string() };
    assert_eq!(e.message(), "could not parse x/zkguard.toml: bad");
}

#[test]
fn inline_directive_with_reason_suppresses_finding_on_same_line() {
    let src = SourceView::new(
        "src/main.nr",
        "let x = 1; // zkguard:ignore NOIR-RANGE-001 reason=\"reviewed, bounded by caller\"\n",
    );
    let out = apply_suppressions(vec![finding("NOIR-RANGE-001", "src/main.nr", Some(1))], &[src], &Config::default());
    assert!(out.active.is_empty());
    assert_eq!(out.suppressed.len(), 1);
    assert_eq!(out.suppressed[0].suppressed_by, SuppressionKind::Inline);
    assert_eq!(out.suppressed[0].reason, "reviewed, bounded by caller");
    assert!(out.warnings.is_empty());
}

#[test]
fn inline_directive_on_line_above_suppresses_next_line() {
    let src = SourceView::new("src/main.nr", "// zkguard:ignore NOIR-RANGE-001 reason=\"ok\"\nlet x = arr[i];\n");
    let out = apply_suppressions(vec![finding("NOIR-RANGE-001", "src/main.nr", Some(2))], &[src], &Config::default());
    assert_eq!(out.suppressed.len(), 1);
    assert!(out.active.is_empty());
}

#[test]
fn inline_directive_without_reason_warns_and_does_not_suppress() {
    let src = SourceView::new("src/main.nr", "let x = 1; // zkguard:ignore NOIR-RANGE-001\n");
    let out = apply_suppressions(vec![finding("NOIR-RANGE-001", "src/main.nr", Some(1))], &[src], &Config::default());
    assert_eq!(out.active.len(), 1, "finding stays active without a reason");
    assert!(out.suppressed.is_empty());
    assert_eq!(out.warnings.len(), 1);
    assert!(out.warnings[0].contains("reason"));
}

#[test]
fn inline_directive_for_other_rule_does_not_suppress() {
    let src = SourceView::new("src/main.nr", "let x = 1; // zkguard:ignore ZK-HASH-001 reason=\"unrelated\"\n");
    let out = apply_suppressions(vec![finding("NOIR-RANGE-001", "src/main.nr", Some(1))], &[src], &Config::default());
    assert_eq!(out.active.len(), 1);
    assert!(out.suppressed.is_empty());
}

#[test]
fn config_file_suppression_matches_rule_and_path() {
    let cfg = suppressing(vec![entry("NOIR-PUBLIC-001", "./src/main.nr", None, "documented informational input")]);
    let out = apply_suppressions(vec![finding("NOIR-PUBLIC-001", "src/main.nr", Some(10))], &[], &cfg);
    assert_eq!(out.suppressed.len(), 1);
    assert_eq!(out.suppressed[0].suppressed_by, SuppressionKind::Config);
}

#[test]
fn config_path_matches_as_trailing_suffix_of_reported_path() {
    let cfg = suppressing(vec![entry("NOIR-PUBLIC-001", "main.nr", None, "root-relative path vs absolute reported path")]);
    let hit = apply_suppressions(vec![finding("NOIR-PUBLIC-001", "/tmp/proj/main.nr", Some(1))], &[], &cfg);
    assert_eq!(hit.suppressed.len(), 1);
    let miss = apply_suppressions(vec![finding("NOIR-PUBLIC-001", "/tmp/proj/zmain.nr", Some(1))], &[], &cfg);
    assert!(miss.suppressed.is_empty());
}

#[test]
fn config_file_suppression_with_line_only_matches_that_line() {
    let cfg = suppressing(vec![entry("NOIR-PUBLIC-001", "src/main.nr", Some(10), "line-scoped")]);
    let hit = apply_suppressions(vec![finding("NOIR-PUBLIC-001", "src/main.nr", Some(10))], &[], &cfg);
    assert_eq!(hit.suppressed.len(), 1);
    let miss = apply_suppressions(vec![finding("NOIR-PUBLIC-001", "src/main.nr", Some(11))], &[], &cfg);
    assert!(miss.suppressed.is_empty());
    assert_eq!(miss.active.len(), 1);
}

#[test]
fn windows_separators_are_normalized_before_matching() {
    let cfg = suppressing(vec![entry("R", "src\\main.nr", None, "why")]);
    let out = apply_suppressions(vec![finding("R", "C:\\proj\\src\\main.nr", None)], &[], &cfg);
    assert_eq!(out.suppressed.len(), 1);
    assert_eq!(out.suppressed[0].reason, "why");
}

#[test]
fn inline_directive_wins_over_config_entry() {
    let cfg = suppressing(vec![entry("R", "src/main.nr", None, "from config")]);
    let src = SourceView::new("src/main.nr", "x // zkguard:ignore R reason=\"inline\"\n");
    let out = apply_suppressions(vec![finding("R", "src/main.nr", Some(1))], &[src], &cfg);
    assert_eq!(out.suppressed.len(), 1);
    assert_eq!(out.suppressed[0].suppressed_by, SuppressionKind::Inline);
    assert_eq!(out.suppressed[0].reason, "inline");
}

#[test]
fn partition_keeps_order_and_accounts_for_every_finding() {
    let cfg = suppressing(vec![entry("B", "a.nr", None, "r")]);
    let input = vec![finding("A", "a.nr", Some(1)), finding("B", "a.nr", Some(2)), finding("C", "a.nr", Some(3))];
    let out = apply_suppressions(input, &[], &cfg);
    let active: Vec<String> = out.active.iter().map(|f| f.rule_id.clone()).collect();
    assert_eq!(active, ["A", "C"]);
    assert_eq!(out.suppressed.len(), 1);
    assert_eq!(out.suppressed[0].finding.rule_id, "B");
}

#[test]
fn suppressions_accessor_returns_entries() {
    let cfg = suppressing(vec![entry("R", "p.nr", Some(3), "x")]);
    assert_eq!(cfg.suppressions().len(), 1);
    assert_eq!(cfg.suppressions()[0].line, Some(3));
}

#[test]
fn every_leading_dot_slash_is_removed_before_matching() {
    let cfg = suppressing(vec![entry("R", "././src/main.nr", None, "why")]);
    let out = apply_suppressions(vec![finding("R", "src/main.nr", None)], &[], &cfg);
    assert_eq!(out.suppressed.len(), 1);
    let cfg = suppressing(vec![entry("R", ".\\src\\a.nr", None, "why")]);
    let out = apply_suppressions(vec![finding("R", "./././src/a.nr", None)], &[], &cfg);
    assert_eq!(out.suppressed.len(), 1);
}

#[test]
fn inline_directive_matches_paths_component_by_component() {
    let src = SourceView::new("src/main.nr", "let x = 1; // zkguard:ignore NOIR-RANGE-001 reason=\"ok\"\n");
    let findings = vec![
        finding("NOIR-RANGE-001", "src//main.nr", Some(1)),
        finding("NOIR-RANGE-001", "src/./main.nr/", Some(1)),
        finding("NOIR-RANGE-001", "./src/main.nr", Some(1)),
        finding("NOIR-RANGE-001", "/src/main.nr", Some(1)),
        finding("NOIR-RANGE-001", "src/main.nr", Some(1)),
    ];
    let out = apply_suppressions(findings, &[src], &Config::default());
    let suppressed: Vec<&str> = out.suppressed.iter().map(|s| s.finding.file.as_str()).collect();
    assert_eq!(suppressed, vec!["src//main.nr", "src/./main.nr/", "src/main.nr"]);
    let active: Vec<&str> = out.active.iter().map(|f| f.file.as_str()).collect();
    assert_eq!(active, vec!["./src/main.nr", "/src/main.nr"]);
}

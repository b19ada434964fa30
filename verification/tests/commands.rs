use zkguard::cli::{FailThreshold, OutputFormat, RulesListArgs, ScanArgs};
use zkguard::commands::fixtures::{self, FixtureCheck};
use zkguard::commands::rules::{self, listing_exit_code, rule_catalog, RulesListing};
use zkguard::commands::scan::{self, exit_code_for, output_target, render_text, OutputTarget};
use zkguard::config::{Config, FileSuppression};
use zkguard::discovery::{
    assemble_project, classify_read_error, is_nargo_manifest, is_noir_source, path_le_exec, sort_skipped,
    sort_sources, DiscoveryError, NoirProject, ReadErrorKind,
};
use zkguard::exit_code;
use zkguard::report::human;
use zkguard::rule::SourceView;
use zkguard::severity::Severity;
use zkguard::skipped::{SkipKind, SkippedFile};

fn list(format: OutputFormat) -> RulesListing {
    rules::run(&RulesListArgs { format })
}

#[test]
fn human_output_lists_noir_public_001() {
    let listing = list(OutputFormat::Human);
    assert_eq!(listing_exit_code(&listing), exit_code::SUCCESS);
    let RulesListing::Rendered(text) = listing else { panic!("expected rendered text") };
    assert!(text.contains("NOIR-PUBLIC-001"));
    assert!(text.contains("high"));
    assert!(text.contains("medium"));
}

#[test]
fn json_listing_hands_back_the_catalog() {
    let listing = list(OutputFormat::Json);
    assert_eq!(listing_exit_code(&listing), exit_code::SUCCESS);
    let RulesListing::Metadata(ms) = listing else { panic!("expected metadata") };
    assert_eq!(ms[0].rule_id, "NOIR-PUBLIC-001");
    assert_eq!(ms, rule_catalog());
}

#[test]
fn sarif_format_is_rejected_as_usage_error() {
    let listing = list(OutputFormat::Sarif);
    assert_eq!(listing_exit_code(&listing), exit_code::USAGE_ERROR);
    let RulesListing::Rejected(err) = listing else { panic!("expected a rejection") };
    assert!(err.contains("sarif"));
}

#[test]
fn markdown_output_has_table() {
    let RulesListing::Rendered(text) = list(OutputFormat::Markdown) else { panic!("expected rendered text") };
    assert!(text.contains("| Rule ID |"));
    assert!(text.contains("NOIR-PUBLIC-001"));
}

#[test]
fn catalog_lists_every_rule_including_project_level() {
    let ids: Vec<String> = rule_catalog().iter().map(|m| m.rule_id.clone()).collect();
    assert_eq!(
        ids,
        ["NOIR-PUBLIC-001", "NOIR-CONSTRAINT-001", "NOIR-RANGE-001", "ZK-HASH-001", "ZK-NULLIFIER-001", "ZK-TEST-001"]
    );
}

#[test]
fn human_listing_pads_the_id_column() {
    let RulesListing::Rendered(text) = list(OutputFormat::Human) else { panic!("expected rendered text") };
    let lines: Vec<&str> = text.lines().collect();
    assert_eq!(lines.len(), 13, "{text}");
    assert_eq!(lines[0], format!("{:<19}  {:<10}  {:<10}  TITLE", "RULE_ID", "SEVERITY", "CONFIDENCE"));
    let catalog = rule_catalog();
    let first = &catalog[0];
    assert_eq!(lines[1], format!("{:<19}  {:<10}  {:<10}  {}", first.rule_id, "high", "medium", first.title));
    assert_eq!(lines[2], format!("{:<19}  {}", "", first.description));
}

#[test]
fn codes_are_distinct() {
    let codes = [exit_code::SUCCESS, exit_code::FINDINGS_PRESENT, exit_code::USAGE_ERROR, exit_code::INTERNAL_ERROR];
    for (i, a) in codes.iter().enumerate() {
        for (j, b) in codes.iter().enumerate() {
            if i != j {
                assert_ne!(a, b, "exit codes must be pairwise distinct");
            }
        }
    }
    assert_eq!(codes, [0, 1, 2, 3]);
}

// ---------------------------------------------------------------- fixtures validate

fn check(dir: &str, outcome: Result<usize, String>) -> FixtureCheck {
    FixtureCheck { dir: dir.to_string(), outcome }
}

#[test]
fn well_formed_fixture_dirs_validate() {
    let out = fixtures::run("fixtures/noir", &[check("vulnerable/a", Ok(1)), check("safe/a", Ok(2))]);
    assert_eq!(out.exit_code, exit_code::SUCCESS);
    assert_eq!(out.stdout, "Validated 2 fixture project(s) under fixtures/noir\n  ok:     2\n  failed: 0\n");
    assert_eq!(out.stderr, "");
}

#[test]
fn fixture_dir_with_no_sources_or_errors_fails() {
    let out = fixtures::run(
        "root",
        &[check("vulnerable/empty-001", Ok(0)), check("safe/b", Ok(1)), check("safe/c", Err("scan root does not exist: x".to_string()))],
    );
    assert_eq!(out.exit_code, exit_code::USAGE_ERROR);
    assert_eq!(out.stdout, "Validated 3 fixture project(s) under root\n  ok:     1\n  failed: 2\n");
    assert_eq!(
        out.stderr,
        "error: vulnerable/empty-001: discovered zero .nr source files\nerror: safe/c: scan root does not exist: x\n"
    );
}

#[test]
fn empty_fixtures_root_is_usage_error() {
    let out = fixtures::run("nowhere", &[]);
    assert_eq!(out.exit_code, exit_code::USAGE_ERROR);
    assert_eq!(out.stdout, "");
    assert_eq!(out.stderr, "error: no fixture project directories found under nowhere\n");
    assert_eq!(fixtures::DEFAULT_FIXTURES_ROOT, "fixtures/noir");
}

// ---------------------------------------------------------------- scan

fn project(files: &[(&str, &str)]) -> NoirProject {
    NoirProject {
        manifest_path: Some("Nargo.toml".to_string()),
        sources: files.iter().map(|(p, s)| SourceView::new(p, s)).collect(),
        skipped: Vec::new(),
    }
}

fn args(format: OutputFormat) -> ScanArgs {
    ScanArgs { path: ".".to_string(), format, output: None, fail_on: None, show_suppressed: false }
}

const VULNERABLE: &str = "fn main(secret: Field, pub claimed_total: Field) {\n    let computed = secret * 2;\n}\n#[test(should_fail)]\nfn t_reject() {}\n";
const SAFE: &str = "fn main(secret: Field, pub claimed_total: Field) {\n    assert(secret == claimed_total);\n}\n#[test(should_fail)]\nfn t_reject() {}\n";

#[test]
fn vulnerable_project_yields_findings_present_exit_code() {
    let run = scan::run(&args(OutputFormat::Human), project(&[("src/main.nr", VULNERABLE)]), &Config::default());
    assert_eq!(run.result.findings.len(), 1);
    assert_eq!(run.result.findings[0].rule_id, "NOIR-PUBLIC-001");
    assert_eq!(run.result.files_scanned, 1);
    assert_eq!(run.result.rules_run.len(), 6);
    assert_eq!(run.rules.len(), 6);
    assert_eq!(run.fail_on, Severity::Low);
    assert_eq!(exit_code_for(&run), exit_code::FINDINGS_PRESENT);
    let text = render_text(&run, OutputFormat::Human).unwrap();
    assert_eq!(text, human::render(&run.result));
    assert!(text.contains("NOIR-PUBLIC-001"));
}

#[test]
fn safe_project_yields_success_exit_code() {
    let run = scan::run(&args(OutputFormat::Human), project(&[("src/main.nr", SAFE)]), &Config::default());
    assert!(run.result.findings.is_empty());
    assert_eq!(exit_code_for(&run), exit_code::SUCCESS);
}

#[test]
fn project_rule_runs_after_file_rules() {
    let src = "fn main(secret: Field, pub claimed_total: Field) {\n    let computed = secret * 2;\n}\n";
    let run = scan::run(&args(OutputFormat::Json), project(&[("src/main.nr", src)]), &Config::default());
    let ids: Vec<String> = run.result.findings.iter().map(|f| f.rule_id.clone()).collect();
    assert_eq!(ids, ["NOIR-PUBLIC-001", "ZK-TEST-001"]);
    assert_eq!(render_text(&run, OutputFormat::Json), None);
    assert_eq!(render_text(&run, OutputFormat::Sarif), None);
}

#[test]
fn fail_on_threshold_above_finding_severity_yields_success() {
    let mut a = args(OutputFormat::Human);
    a.fail_on = Some(FailThreshold::Critical);
    let run = scan::run(&a, project(&[("src/main.nr", VULNERABLE)]), &Config::default());
    assert_eq!(run.result.findings.len(), 1, "finding below threshold must still be reported");
    assert_eq!(run.fail_on, Severity::Critical);
    assert_eq!(exit_code_for(&run), exit_code::SUCCESS);
}

#[test]
fn cli_fail_on_overrides_config_fail_on() {
    let cfg = Config::new(Some(Severity::Critical), Vec::new(), Vec::new());
    let run = scan::run(&args(OutputFormat::Human), project(&[("src/main.nr", VULNERABLE)]), &cfg);
    assert_eq!(exit_code_for(&run), exit_code::SUCCESS, "config fail_on=critical applies");
    let mut a = args(OutputFormat::Human);
    a.fail_on = Some(FailThreshold::High);
    let run = scan::run(&a, project(&[("src/main.nr", VULNERABLE)]), &cfg);
    assert_eq!(exit_code_for(&run), exit_code::FINDINGS_PRESENT, "CLI fail_on wins");
}

#[test]
fn config_disabling_rule_removes_its_findings() {
    let cfg = Config::new(None, vec![("NOIR-PUBLIC-001".to_string(), false)], Vec::new());
    let run = scan::run(&args(OutputFormat::Json), project(&[("src/main.nr", VULNERABLE)]), &cfg);
    assert!(run.result.findings.is_empty());
    assert_eq!(exit_code_for(&run), exit_code::SUCCESS, "disabled rule can't fail the scan");
    assert!(!run.result.rules_run.iter().any(|id| id == "NOIR-PUBLIC-001"), "disabled rule must not appear in rules_run");
    assert_eq!(run.result.rules_run.len(), 5);
}

#[test]
fn inline_directive_suppresses_finding() {
    let src = "fn main(secret: Field, pub claimed_total: Field) { // zkguard:ignore NOIR-PUBLIC-001 reason=\"informational\"\n    let computed = secret * 2;\n}\n#[test(should_fail)]\nfn t_reject() {}\n";
    let run = scan::run(&args(OutputFormat::Json), project(&[("src/main.nr", src)]), &Config::default());
    assert!(run.result.findings.is_empty(), "only finding was suppressed: {:#?} {:?}", run.result.findings, run.warnings);
    assert_eq!(run.result.suppressed_count, 1);
    assert!(run.result.suppressed.is_empty());
    assert_eq!(exit_code_for(&run), exit_code::SUCCESS);
}

#[test]
fn file_suppression_and_show_suppressed_lists_it() {
    let cfg = Config::new(
        None,
        Vec::new(),
        vec![FileSuppression {
            rule: "NOIR-PUBLIC-001".to_string(),
            path: "src/main.nr".to_string(),
            line: None,
            reason: "documented exception".to_string(),
        }],
    );
    let mut a = args(OutputFormat::Human);
    a.show_suppressed = true;
    let run = scan::run(&a, project(&[("src/main.nr", VULNERABLE)]), &cfg);
    assert_eq!(run.result.suppressed_count, 1);
    assert_eq!(run.result.suppressed.len(), 1);
    let text = render_text(&run, OutputFormat::Human).unwrap();
    assert!(text.contains("suppressed: 1"));
    assert!(text.contains("Suppressed findings:"));
    assert!(text.contains("documented exception"));
}

#[test]
fn directive_without_reason_warns() {
    let src = "fn main(pub x: Field) { // zkguard:ignore NOIR-PUBLIC-001\n}\n";
    let run = scan::run(&args(OutputFormat::Human), project(&[("a.nr", src)]), &Config::default());
    assert_eq!(run.warnings.len(), 1);
    assert!(run.warnings[0].starts_with("a.nr:1: "), "{:?}", run.warnings);
    assert!(run.result.findings.iter().any(|f| f.rule_id == "NOIR-PUBLIC-001"));
}

#[test]
fn skipped_files_are_carried_into_the_result() {
    let mut p = project(&[("src/main.nr", SAFE)]);
    p.skipped.push(SkippedFile::new("src/bad.nr", "invalid UTF-8", SkipKind::NonUtf8));
    let run = scan::run(&args(OutputFormat::Human), p, &Config::default());
    assert_eq!(run.result.skipped.len(), 1);
    assert_eq!(exit_code_for(&run), exit_code::SUCCESS);
}

#[test]
fn output_goes_to_file_except_for_human() {
    let mut a = args(OutputFormat::Markdown);
    assert_eq!(output_target(&a), (OutputTarget::Stdout, None));
    a.output = Some("report.md".to_string());
    assert_eq!(output_target(&a), (OutputTarget::File("report.md".to_string()), None));
    a.format = OutputFormat::Human;
    let (target, warning) = output_target(&a);
    assert_eq!(target, OutputTarget::Stdout);
    assert_eq!(warning.as_deref(), Some(scan::OUTPUT_IGNORED));
}

#[test]
fn fail_threshold_names_its_severity() {
    assert_eq!(FailThreshold::Critical.to_severity(), Severity::Critical);
    assert_eq!(FailThreshold::Medium.to_severity(), Severity::Medium);
    assert_eq!(FailThreshold::Info.to_severity(), Severity::Info);
}

// ---------------------------------------------------------------- discovery

#[test]
fn noir_sources_and_manifests_are_recognized_by_name() {
    assert!(is_noir_source("src/main.nr"));
    assert!(!is_noir_source("src/main.nr.bak"));
    assert!(!is_noir_source("README.md"));
    assert!(!is_noir_source(".nr"));
    assert!(is_nargo_manifest("proj/Nargo.toml"));
    assert!(is_nargo_manifest("Nargo.toml"));
    assert!(!is_nargo_manifest("proj/nargo.toml"));
}

#[test]
fn read_errors_are_classified() {
    assert_eq!(classify_read_error(ReadErrorKind::InvalidData), SkipKind::NonUtf8);
    assert_eq!(classify_read_error(ReadErrorKind::PermissionDenied), SkipKind::Unreadable);
    assert_eq!(classify_read_error(ReadErrorKind::Other), SkipKind::OtherIo);
}

#[test]
fn discovery_errors_explain_themselves() {
    let e = DiscoveryError::RootNotFound("/no/such".to_string());
    assert_eq!(e.message(), "scan root does not exist: /no/such");
    let e = DiscoveryError::Io { path: "p".to_string(), message: "m".to_string() };
    assert_eq!(e.message(), "I/O error reading p: m");
    assert_eq!(project(&[("a.nr", ""), ("b.nr", "")]).file_count(), 2);
}

#[test]
fn paths_order_component_by_component() {
    assert!(path_le_exec("a/b.nr", "a/c.nr"));
    assert!(!path_le_exec("a/c.nr", "a/b.nr"));
    // The separator sorts before every other character, as `Path` does.
    assert!(path_le_exec("a/z.nr", "a-b/a.nr"));
    assert!(!path_le_exec("a-b/a.nr", "a/z.nr"));
    assert!(path_le_exec("src", "src/main.nr"));
    assert!(path_le_exec("x.nr", "x.nr"));
}

#[test]
fn discovered_files_are_sorted_by_path() {
    let sources = vec![
        SourceView::new("p/src/z.nr", "z"),
        SourceView::new("p/src-old/a.nr", "a"),
        SourceView::new("p/src/a.nr", "b"),
    ];
    let sorted = sort_sources(sources);
    let paths: Vec<&str> = sorted.iter().map(|s| s.path.as_str()).collect();
    assert_eq!(paths, vec!["p/src/a.nr", "p/src/z.nr", "p/src-old/a.nr"]);
    assert_eq!(sorted[0].source, "b");

    let skipped = vec![
        SkippedFile::new("b.nr", "bad", SkipKind::NonUtf8),
        SkippedFile::new("a.nr", "gone", SkipKind::Unreadable),
    ];
    let sorted = sort_skipped(skipped);
    assert_eq!(sorted[0].path, "a.nr");
    assert_eq!(sorted[1].path, "b.nr");
}

#[test]
fn the_shallowest_manifest_is_reported() {
    let manifests = vec![
        "root/deep/pkg/Nargo.toml".to_string(),
        "root/Nargo.toml".to_string(),
        "root/other/Nargo.toml".to_string(),
    ];
    let p = assemble_project(vec![SourceView::new("root/src/main.nr", "")], Vec::new(), manifests);
    assert_eq!(p.manifest_path.as_deref(), Some("root/Nargo.toml"));
    assert_eq!(p.file_count(), 1);

    // Among equally shallow manifests the first found wins.
    let manifests = vec!["root/b/Nargo.toml".to_string(), "root/a/Nargo.toml".to_string()];
    let p = assemble_project(Vec::new(), Vec::new(), manifests);
    assert_eq!(p.manifest_path.as_deref(), Some("root/b/Nargo.toml"));

    let p = assemble_project(Vec::new(), Vec::new(), Vec::new());
    assert_eq!(p.manifest_path, None);
}

use zkguard::rule::{ProjectRule, Rule, SourceView};
use zkguard::rules::noir_constraint_001::{self, NoirConstraint001};
use zkguard::rules::noir_public_001::{self, NoirPublic001};
use zkguard::rules::noir_range_001::{self, NoirRange001};
use zkguard::rules::registry::{project_registry, registry};
use zkguard::rules::zk_hash_001::{self, ZkHash001};
use zkguard::rules::zk_nullifier_001::{self, ZkNullifier001};
use zkguard::rules::zk_test_001::{self, ZkTest001};
use zkguard::severity::{Confidence, Severity};

fn source(text: &str) -> SourceView {
    SourceView::new("src/main.nr", text)
}

fn src(path: &str, body: &str) -> SourceView {
    SourceView::new(path, body)
}

// ---------------------------------------------------------------- NOIR-PUBLIC-001

#[test]
fn noir_public_001_flags_unused_pub_input() {
    let src = source("fn main(secret: Field, pub claimed_total: Field) {\n    let computed = secret * 2;\n}\n");
    let findings = noir_public_001::check_source(&src);
    assert_eq!(findings.len(), 1);
    let finding = &findings[0];
    assert_eq!(finding.rule_id, "NOIR-PUBLIC-001");
    assert_eq!(finding.severity, Severity::High);
    assert_eq!(finding.confidence, Confidence::Medium);
    assert_eq!(finding.line, Some(1));
    assert_eq!(finding.evidence, "pub claimed_total: Field");
    assert!(!finding.why_it_matters.is_empty());
    assert!(!finding.remediation.is_empty());
}

#[test]
fn noir_public_001_allows_constrained_pub_input() {
    let src = source(
        "fn main(secret: Field, pub claimed_total: Field) {\n    let computed = secret * 2;\n    assert(computed == claimed_total);\n}\n",
    );
    assert!(noir_public_001::check_source(&src).is_empty());
}

#[test]
fn noir_public_001_no_finding_on_helper_function_params() {
    let src = source(
        "fn helper(pub debug_value: Field) {\n    println(debug_value);\n}\nfn main(secret: Field) {\n    assert(secret == 1);\n}\n",
    );
    assert!(noir_public_001::check_source(&src).is_empty());
}

#[test]
fn one_hop_indirect_use_does_not_fire() {
    let src = source(
        "fn main(secret: Field, pub claimed_total: Field) {\n    let x = claimed_total + 1;\n    assert(x == secret);\n}\n",
    );
    assert!(noir_public_001::check_source(&src).is_empty());
}

#[test]
fn println_only_use_still_fires() {
    let src = source(
        "fn main(secret: Field, pub claimed_total: Field) {\n    println(claimed_total);\n    assert(secret == 1);\n}\n",
    );
    assert_eq!(noir_public_001::check_source(&src).len(), 1);
}

#[test]
fn multiple_public_params_each_evaluated_independently() {
    let src = source("fn main(pub a: Field, pub b: Field) {\n    assert(a == 1);\n}\n");
    let findings = noir_public_001::check_source(&src);
    assert_eq!(findings.len(), 1);
    assert_eq!(findings[0].evidence, "pub b: Field");
}

#[test]
fn no_public_params_yields_no_findings() {
    let src = source("fn main(secret: Field) {\n    assert(secret == 1);\n}\n");
    assert!(noir_public_001::check_source(&src).is_empty());
}

#[test]
fn noir_public_001_rule_object_exposes_expected_metadata() {
    let rule = NoirPublic001;
    assert_eq!(rule.metadata().rule_id, "NOIR-PUBLIC-001");
    assert_eq!(rule.metadata().default_severity, Severity::High);
    assert_eq!(rule.metadata().default_confidence, Confidence::Medium);
}

#[test]
fn noir_public_001_finding_carries_path_title_and_texts() {
    let src = SourceView::new("circuits/src/main.nr", "fn main(pub x: Field) {\n}\n");
    let findings = NoirPublic001.check(&src);
    assert_eq!(findings.len(), 1);
    assert_eq!(findings[0].file, "circuits/src/main.nr");
    assert_eq!(findings[0].title, noir_public_001::TITLE);
    assert_eq!(findings[0].why_it_matters, noir_public_001::WHY_IT_MATTERS);
    assert_eq!(findings[0].remediation, noir_public_001::REMEDIATION);
    assert_eq!(findings[0].column, None);
}

// ---------------------------------------------------------------- NOIR-CONSTRAINT-001

#[test]
fn noir_constraint_001_flags_unasserted_boolean_binding() {
    let src = source("fn main(a: Field, b: Field) {\n    let is_equal = a == b;\n}\n");
    let findings = noir_constraint_001::check_source(&src);
    assert_eq!(findings.len(), 1);
    let finding = &findings[0];
    assert_eq!(finding.rule_id, "NOIR-CONSTRAINT-001");
    assert_eq!(finding.severity, Severity::High);
    assert_eq!(finding.confidence, Confidence::Medium);
    assert_eq!(finding.line, Some(2));
    assert_eq!(finding.evidence, "let is_equal = a == b;");
    assert!(!finding.why_it_matters.is_empty());
    assert!(!finding.remediation.is_empty());
}

#[test]
fn noir_constraint_001_allows_asserted_boolean_binding() {
    let src = source("fn main(a: Field, b: Field) {\n    let is_equal = a == b;\n    assert(is_equal);\n}\n");
    assert!(noir_constraint_001::check_source(&src).is_empty());
}

#[test]
fn noir_constraint_001_allows_inline_assert_no_binding() {
    let src = source("fn main(a: Field, b: Field) {\n    assert(a == b);\n}\n");
    assert!(noir_constraint_001::check_source(&src).is_empty());
}

#[test]
fn allows_asserted_boolean_binding_via_assert_eq_true() {
    let src = source("fn main(a: Field, b: Field) {\n    let is_equal = a == b;\n    assert_eq(is_equal, true);\n}\n");
    assert!(noir_constraint_001::check_source(&src).is_empty());
}

#[test]
fn allows_one_hop_indirect_boolean_binding() {
    let src = source(
        "fn main(a: Field, b: Field) {\n    let is_equal = a == b;\n    let ok = is_equal;\n    assert(ok);\n}\n",
    );
    assert!(noir_constraint_001::check_source(&src).is_empty());
}

#[test]
fn non_boolean_let_binding_does_not_fire() {
    let src = source("fn main(a: Field, b: Field) {\n    let total = a + b;\n}\n");
    assert!(noir_constraint_001::check_source(&src).is_empty());
}

#[test]
fn range_like_comparison_fires_when_unasserted() {
    let src = source("fn main(a: Field, b: Field) {\n    let in_range = a < b;\n}\n");
    let findings = noir_constraint_001::check_source(&src);
    assert_eq!(findings.len(), 1);
    assert_eq!(findings[0].evidence, "let in_range = a < b;");
}

#[test]
fn multiple_unasserted_bindings_each_produce_a_finding() {
    let src = source(
        "fn main(a: Field, b: Field, c: Field) {\n    let is_equal = a == b;\n    let in_range = b < c;\n    assert(is_equal);\n}\n",
    );
    let findings = noir_constraint_001::check_source(&src);
    assert_eq!(findings.len(), 1);
    assert_eq!(findings[0].evidence, "let in_range = b < c;");
}

#[test]
fn noir_constraint_001_rule_object_exposes_expected_metadata() {
    let rule = NoirConstraint001;
    assert_eq!(rule.metadata().rule_id, "NOIR-CONSTRAINT-001");
    assert_eq!(rule.metadata().default_severity, Severity::High);
    assert_eq!(rule.metadata().default_confidence, Confidence::Medium);
}

// ---------------------------------------------------------------- NOIR-RANGE-001

#[test]
fn noir_range_001_flags_unbounded_index() {
    let src = source("fn main(index: Field, items: [Field; 8]) {\n    let i = index as u32;\n    let v = items[i];\n}\n");
    let findings = noir_range_001::check_source(&src);
    assert!(
        findings.iter().any(|f| f.evidence.contains("items[i]")),
        "expected an indexing finding, got: {findings:#?}"
    );
    for finding in &findings {
        assert_eq!(finding.rule_id, "NOIR-RANGE-001");
        assert_eq!(finding.severity, Severity::Medium);
        assert_eq!(finding.confidence, Confidence::Low);
    }
}

#[test]
fn noir_range_001_flags_narrowing_cast_without_bound() {
    let src = source("fn main(index: Field) {\n    let i = index as u32;\n}\n");
    let findings = noir_range_001::check_source(&src);
    assert!(
        findings.iter().any(|f| f.evidence.contains("index as u32")),
        "expected a narrowing-cast finding, got: {findings:#?}"
    );
}

#[test]
fn noir_range_001_allows_bounded_index() {
    let src = source(
        "fn main(index: Field, items: [Field; 8]) {\n    assert(index as u32 < 8);\n    let i = index as u32;\n    let v = items[i];\n}\n",
    );
    let findings = noir_range_001::check_source(&src);
    assert!(
        findings.is_empty(),
        "an explicit bound on `index` must suppress findings on both the cast and the index it produces, got: {findings:#?}"
    );
}

#[test]
fn noir_range_001_no_finding_on_for_loop_counter() {
    let src = source(
        "fn main(items: [Field; 4]) {\n    let mut total = 0;\n    for i in 0..4 {\n        total = total + items[i];\n    }\n}\n",
    );
    let findings = noir_range_001::check_source(&src);
    assert!(findings.is_empty(), "for _ in 0..N loop counter index must not be flagged: {findings:#?}");
}

#[test]
fn flags_unsigned_subtraction_without_bound() {
    let src = source("fn main(balance: u64, amount: u64) {\n    let diff = balance - amount;\n}\n");
    let findings = noir_range_001::check_source(&src);
    assert!(
        findings.iter().any(|f| f.evidence.contains("balance - amount")),
        "expected an unsigned-subtraction finding, got: {findings:#?}"
    );
}

#[test]
fn allows_unsigned_subtraction_with_named_range_check_helper() {
    let src = source("fn main(balance: u64, amount: u64) {\n    range_check(balance, 64);\n    let diff = balance - amount;\n}\n");
    let findings = noir_range_001::check_source(&src);
    assert!(findings.is_empty(), "findings: {findings:#?}");
}

#[test]
fn noir_range_001_rule_object_exposes_expected_metadata() {
    let rule = NoirRange001;
    assert_eq!(rule.metadata().rule_id, "NOIR-RANGE-001");
    assert_eq!(rule.metadata().default_severity, Severity::Medium);
    assert_eq!(rule.metadata().default_confidence, Confidence::Low);
}

#[test]
fn noir_range_001_reports_the_file_line_of_the_site() {
    let src = source("// a\n\nfn main(index: Field) {\n    let x = 1;\n    let i = index as u32;\n}\n");
    let findings = NoirRange001.check(&src);
    assert_eq!(findings.len(), 1);
    assert_eq!(findings[0].line, Some(5));
    assert_eq!(findings[0].file, "src/main.nr");
}

// ---------------------------------------------------------------- ZK-HASH-001

#[test]
fn zk_hash_001_flags_untagged_colliding_commitments() {
    let src = source(
        "fn leaf_commitment(a: Field, b: Field) -> Field {\n    poseidon::bn254::hash_2([a, b])\n}\nfn nullifier_hash(c: Field, d: Field) -> Field {\n    poseidon::bn254::hash_2([c, d])\n}\n",
    );
    let findings = zk_hash_001::check_source(&src);
    assert_eq!(findings.len(), 2, "findings: {findings:#?}");
    for finding in &findings {
        assert_eq!(finding.rule_id, "ZK-HASH-001");
        assert_eq!(finding.severity, Severity::Medium);
        assert_eq!(finding.confidence, Confidence::Medium);
    }
}

#[test]
fn zk_hash_001_allows_domain_tagged_hash() {
    let src = source(
        "global LEAF_DOMAIN: Field = 0x4c454146;\nfn leaf_commitment(a: Field, b: Field) -> Field {\n    poseidon::bn254::hash_3([LEAF_DOMAIN, a, b])\n}\n",
    );
    let findings = zk_hash_001::check_source(&src);
    assert!(findings.is_empty(), "findings: {findings:#?}");
}

#[test]
fn single_untagged_hash_call_with_no_collision_is_low_confidence() {
    let src = source("fn leaf_commitment(a: Field, b: Field) -> Field {\n    poseidon::bn254::hash_2([a, b])\n}\n");
    let findings = zk_hash_001::check_source(&src);
    assert_eq!(findings.len(), 1, "findings: {findings:#?}");
    assert_eq!(findings[0].confidence, Confidence::Low);
    assert_eq!(findings[0].severity, Severity::Medium);
}

#[test]
fn untagged_calls_with_different_arity_do_not_corroborate_each_other() {
    let src = source(
        "fn leaf_commitment(a: Field, b: Field) -> Field {\n    poseidon::bn254::hash_2([a, b])\n}\nfn triple_commitment(a: Field, b: Field, c: Field) -> Field {\n    poseidon::bn254::hash_3([a, b, c])\n}\n",
    );
    let findings = zk_hash_001::check_source(&src);
    assert_eq!(findings.len(), 2, "findings: {findings:#?}");
    assert!(findings.iter().all(|f| f.confidence == Confidence::Low));
}

#[test]
fn hash_call_without_inline_array_literal_is_not_flagged() {
    let src = source("fn leaf_commitment(inputs: [Field; 2]) -> Field {\n    poseidon::bn254::hash_2(inputs)\n}\n");
    let findings = zk_hash_001::check_source(&src);
    assert!(findings.is_empty(), "findings: {findings:#?}");
}

#[test]
fn zk_hash_001_rule_object_exposes_expected_metadata() {
    let rule = ZkHash001;
    assert_eq!(rule.metadata().rule_id, "ZK-HASH-001");
    assert_eq!(rule.metadata().default_severity, Severity::Medium);
    assert_eq!(rule.metadata().default_confidence, Confidence::Medium);
}

#[test]
fn zk_hash_001_evidence_notes_collision_or_missing_tag() {
    let src = source("fn f(a: Field, b: Field) -> Field {\n    poseidon::bn254::hash_2([a, b])\n}\n");
    let findings = ZkHash001.check(&src);
    assert_eq!(findings.len(), 1);
    assert_eq!(findings[0].line, Some(2));
    assert!(findings[0].evidence.ends_with(zk_hash_001::NO_TAG_NOTE), "{findings:#?}");
    assert!(findings[0].evidence.starts_with("poseidon::bn254::hash_2"), "{findings:#?}");

    let src = source(
        "fn f(a: Field, b: Field) -> Field {\n    poseidon::bn254::hash_2([a, b])\n}\nfn g(c: Field, d: Field) -> Field {\n    poseidon::bn254::hash_2([c, d])\n}\n",
    );
    let findings = ZkHash001.check(&src);
    assert_eq!(findings.len(), 2);
    assert!(findings[0].evidence.ends_with("the same 2-argument shape)"), "{findings:#?}");
    assert_eq!(findings[1].line, Some(5));
}

// ---------------------------------------------------------------- ZK-NULLIFIER-001

#[test]
fn zk_nullifier_001_flags_unhashed_raw_nullifier() {
    let src = source("fn main(secret: Field) -> Field {\n    let nullifier = secret;\n    nullifier\n}\n");
    let findings = zk_nullifier_001::check_source(&src);
    assert_eq!(findings.len(), 1, "findings: {findings:#?}");
    let finding = &findings[0];
    assert_eq!(finding.rule_id, "ZK-NULLIFIER-001");
    assert_eq!(finding.severity, Severity::High);
    assert_eq!(finding.confidence, Confidence::Low);
    assert!(finding.evidence.contains("nullifier"));
    assert!(!finding.why_it_matters.is_empty());
    assert!(!finding.remediation.is_empty());
}

#[test]
fn zk_nullifier_001_flags_untagged_hashed_nullifier() {
    let src = source(
        "fn compute_nullifier(secret: Field, leaf_index: Field) -> Field {\n    poseidon::bn254::hash_2([secret, leaf_index])\n}\n",
    );
    let findings = zk_nullifier_001::check_source(&src);
    assert_eq!(findings.len(), 1, "findings: {findings:#?}");
    assert_eq!(findings[0].severity, Severity::High);
    assert_eq!(findings[0].confidence, Confidence::Low);
}

#[test]
fn zk_nullifier_001_allows_domain_tagged_nullifier() {
    let src = source(
        "global NULLIFIER_DOMAIN: Field = 0x4e554c4c;\nfn compute_nullifier(secret: Field, leaf_index: Field) -> Field {\n    poseidon::bn254::hash_3([NULLIFIER_DOMAIN, secret, leaf_index])\n}\n",
    );
    let findings = zk_nullifier_001::check_source(&src);
    assert!(findings.is_empty(), "findings: {findings:#?}");
}

#[test]
fn unrelated_name_is_not_flagged() {
    let src = source(
        "fn leaf_commitment(secret: Field, leaf_index: Field) -> Field {\n    poseidon::bn254::hash_2([secret, leaf_index])\n}\n",
    );
    let findings = zk_nullifier_001::check_source(&src);
    assert!(findings.is_empty(), "findings: {findings:#?}");
}

#[test]
fn zk_nullifier_001_rule_object_exposes_expected_metadata() {
    let rule = ZkNullifier001;
    assert_eq!(rule.metadata().rule_id, "ZK-NULLIFIER-001");
    assert_eq!(rule.metadata().default_severity, Severity::High);
    assert_eq!(rule.metadata().default_confidence, Confidence::Low);
}

#[test]
fn zk_nullifier_001_evidence_names_binding_expression_and_detail() {
    let src = source("fn main(secret: Field) -> Field {\n    let nullifier = secret;\n    nullifier\n}\n");
    let findings = ZkNullifier001.check(&src);
    assert_eq!(findings.len(), 1);
    assert_eq!(findings[0].line, Some(2));
    assert_eq!(findings[0].evidence, format!("nullifier = secret ({})", zk_nullifier_001::RAW_DETAIL));
}

// ---------------------------------------------------------------- ZK-TEST-001

#[test]
fn no_entry_point_never_flags() {
    let sources = [src("lib.nr", "fn helper() {}\n#[test]\nfn t() {}\n")];
    assert!(zk_test_001::check_sources(&sources).is_empty());
}

#[test]
fn main_with_no_tests_is_flagged() {
    let sources = [src("main.nr", "fn main(x: Field) {\n    assert(x == x);\n}\n")];
    let findings = zk_test_001::check_sources(&sources);
    assert_eq!(findings.len(), 1);
    assert_eq!(findings[0].rule_id, "ZK-TEST-001");
    assert_eq!(findings[0].line, Some(1));
    assert_eq!(findings[0].file, "main.nr");
    assert!(findings[0].evidence.contains("no `#[test]` functions"));
}

#[test]
fn main_with_only_happy_path_tests_is_flagged() {
    let sources = [src("main.nr", "fn main(x: Field) { assert(x == x); }\n#[test]\nfn test_valid() {\n    let _ = main(1);\n}\n")];
    let findings = zk_test_001::check_sources(&sources);
    assert_eq!(findings.len(), 1);
    assert!(findings[0].evidence.contains("none are negative"));
}

#[test]
fn should_fail_attribute_clears_the_project() {
    let sources = [src("main.nr", "fn main(x: Field) { assert(x == x); }\n#[test(should_fail)]\nfn t_reject() {}\n")];
    assert!(zk_test_001::check_sources(&sources).is_empty());
}

#[test]
fn negative_name_clears_the_project() {
    let sources = [src("main.nr", "fn main(x: Field) { assert(x == x); }\n#[test]\nfn test_invalid_witness() {}\n")];
    assert!(zk_test_001::check_sources(&sources).is_empty());
}

#[test]
fn negative_test_in_a_separate_file_clears_the_project() {
    let sources = [
        src("main.nr", "fn main(x: Field) { assert(x == x); }\n"),
        src("tests.nr", "#[test(should_fail)]\nfn rejects_bad() {}\n"),
    ];
    assert!(zk_test_001::check_sources(&sources).is_empty());
}

#[test]
fn fn_main_helper_does_not_count_as_entry_point() {
    let sources = [src("lib.nr", "fn main_helper() {}\n#[test]\nfn t() {}\n")];
    assert!(zk_test_001::check_sources(&sources).is_empty());
}

#[test]
fn commented_entry_point_is_ignored() {
    let sources = [src("main.nr", "// fn main(x: Field) {}\nfn other() {}\n")];
    assert!(zk_test_001::check_sources(&sources).is_empty());
}

#[test]
fn uppercase_negative_name_clears_the_project() {
    // Names are compared after lowercasing.
    let sources = [src("main.nr", "fn main(x: Field) { assert(x == x); }\n#[test]\nfn test_INVALID_input() {}\n")];
    assert!(ZkTest001.check_project(&sources).is_empty());
    assert!(zk_test_001::name_marks_negative("rejects_bad"));
    assert!(!zk_test_001::name_marks_negative("happy_path"));
}

#[test]
fn test_names_run_through_unicode_letters() {
    let sources = [src("main.nr", "fn main(x: Field) { assert(x == x); }\n#[test]\nfn t\u{e9}_invalid() {}\n")];
    assert!(zk_test_001::check_sources(&sources).is_empty());
    assert_eq!(zk_test_001::tests_in("#[test]\nfn \u{e9}t\u{e9}_reject() {}\n"), vec![true]);
}

#[test]
fn happy_path_evidence_counts_the_tests() {
    let sources = [src(
        "main.nr",
        "fn main(x: Field) { assert(x == x); }\n#[test]\nfn test_a() {}\n#[test]\nfn test_b() {}\n",
    )];
    let findings = zk_test_001::check_sources(&sources);
    assert_eq!(findings.len(), 1);
    assert_eq!(
        findings[0].evidence,
        format!("{}2{}", zk_test_001::SOME_TESTS_EVIDENCE_START, zk_test_001::SOME_TESTS_EVIDENCE_END)
    );
    assert_eq!(findings[0].severity, Severity::Low);
}

#[test]
fn entry_point_detection_and_test_listing() {
    assert!(zk_test_001::declares_main("fn main() {}"));
    assert!(!zk_test_001::declares_main("fn main_helper() {}"));
    assert_eq!(zk_test_001::tests_in("#[test]\nfn a() {}\n#[test(should_fail)]\nfn b() {}\n"), vec![false, true]);
}

#[test]
fn zk_test_001_rule_object_exposes_expected_metadata() {
    let rule = ZkTest001;
    assert_eq!(rule.metadata().rule_id, "ZK-TEST-001");
    assert_eq!(rule.metadata().title, zk_test_001::TITLE);
}

// ---------------------------------------------------------------- registry

#[test]
fn registry_contains_noir_public_001() {
    assert!(registry().iter().any(|r| r.metadata().rule_id == "NOIR-PUBLIC-001"));
}

#[test]
fn registry_contains_noir_constraint_001() {
    assert!(registry().iter().any(|r| r.metadata().rule_id == "NOIR-CONSTRAINT-001"));
}

#[test]
fn registry_contains_noir_range_001() {
    assert!(registry().iter().any(|r| r.metadata().rule_id == "NOIR-RANGE-001"));
}

#[test]
fn registry_contains_zk_hash_001() {
    assert!(registry().iter().any(|r| r.metadata().rule_id == "ZK-HASH-001"));
}

#[test]
fn registry_contains_zk_nullifier_001() {
    assert!(registry().iter().any(|r| r.metadata().rule_id == "ZK-NULLIFIER-001"));
}

#[test]
fn registry_rule_ids_are_unique() {
    let rules = registry();
    let mut ids: Vec<String> = rules.iter().map(|r| r.metadata().rule_id).collect();
    let original_len = ids.len();
    ids.sort_unstable();
    ids.dedup();
    assert_eq!(ids.len(), original_len, "rule registry must not contain duplicate rule_id values");
}

#[test]
fn project_registry_contains_zk_test_001() {
    assert!(project_registry().iter().any(|r| r.metadata().rule_id == "ZK-TEST-001"));
}

#[test]
fn per_file_and_project_rule_ids_do_not_overlap() {
    let file_ids: Vec<String> = registry().iter().map(|r| r.metadata().rule_id).collect();
    for project_rule in project_registry() {
        assert!(
            !file_ids.contains(&project_rule.metadata().rule_id),
            "a rule_id must be either per-file or project-level, not both"
        );
    }
}

#[test]
fn registry_order_is_stable() {
    let ids: Vec<String> = registry().iter().map(|r| r.metadata().rule_id).collect();
    assert_eq!(ids, ["NOIR-PUBLIC-001", "NOIR-CONSTRAINT-001", "NOIR-RANGE-001", "ZK-HASH-001", "ZK-NULLIFIER-001"]);
}

#[test]
fn registry_rules_dispatch_to_their_checks() {
    let s = source("fn main(secret: Field, pub claimed_total: Field) {\n    let computed = secret * 2;\n}\n");
    let rules = registry();
    assert_eq!(rules[0].check(&s), noir_public_001::check_source(&s));
    let sources = [src("main.nr", "fn main(x: Field) {\n    assert(x == x);\n}\n")];
    let project = project_registry();
    assert_eq!(project[0].check_project(&sources), zk_test_001::check_sources(&sources));
}

#[test]
fn findings_point_at_lines_inside_the_file() {
    let text = "fn main(pub a: Field, b: Field) {\n    let ok = a == b;\n    let i = b as u8;\n    let nullifier = b;\n    let h = std::hash::pedersen_hash([a, b]);\n}\n";
    let n_lines = text.lines().count() as u32;
    let s = source(text);
    for rule in registry() {
        for f in rule.check(&s) {
            let line = f.line.expect("every per-file finding has a line");
            assert!(line >= 1 && line <= n_lines, "{f:#?}");
            assert_eq!(f.file, "src/main.nr");
            assert!(!f.evidence.is_empty());
        }
    }
}

#[test]
fn public_shapes_for_sample_identifiers() {
    for name in ["x", "claimed_total", "let", "assert", "a1_b", "secret", "main", "mut_x"] {
        let safe = format!("fn main(secret: Field, pub {name}: Field) {{\n    assert({name} == secret);\n}}\n");
        assert!(NoirPublic001.check(&source(&safe)).is_empty(), "{safe}");
        let vulnerable = format!("fn main(secret: Field, pub {name}: Field) {{\n    let unused = secret * 2;\n}}\n");
        let findings = NoirPublic001.check(&source(&vulnerable));
        assert_eq!(findings.len(), 1, "{vulnerable}");
        assert_eq!(findings[0].line, Some(1));
        assert_eq!(findings[0].evidence, format!("pub {name}: Field"));
        assert_eq!(findings[0].severity, Severity::High);
        assert_eq!(findings[0].confidence, Confidence::Medium);
    }
}

#[test]
fn constraint_shapes_for_sample_identifiers() {
    for name in ["ok", "is_equal", "let", "xlet", "assert", "assert_eq", "constrain", "b2"] {
        let safe = format!("fn main(a: Field, b: Field) {{\n    let {name} = a == b;\n    assert({name});\n}}\n");
        assert!(NoirConstraint001.check(&source(&safe)).is_empty(), "{safe}");
        let vulnerable = format!("fn main(a: Field, b: Field) {{\n    let {name} = a == b;\n}}\n");
        let findings = NoirConstraint001.check(&source(&vulnerable));
        assert_eq!(findings.len(), 1, "{vulnerable}");
        assert_eq!(findings[0].line, Some(2));
        assert_eq!(findings[0].evidence, format!("let {name} = a == b;"));
    }
}

#[test]
fn hash_shapes_documented_safe_and_vulnerable() {
    let safe = "global LEAF_DOMAIN: Field = 0x4c454146;\nglobal NULL_DOMAIN: Field = 0x4e554c4c;\nfn leaf_commitment(a: Field, b: Field) -> Field {\n    poseidon::bn254::hash_3([LEAF_DOMAIN, a, b])\n}\nfn nullifier_hash(c: Field, d: Field) -> Field {\n    poseidon::bn254::hash_3([NULL_DOMAIN, c, d])\n}\n";
    assert!(ZkHash001.check(&source(safe)).is_empty());
    let vulnerable = "fn leaf_commitment(a: Field, b: Field) -> Field {\n    poseidon::bn254::hash_2([a, b])\n}\nfn nullifier_hash(c: Field, d: Field) -> Field {\n    poseidon::bn254::hash_2([c, d])\n}\n";
    let findings = ZkHash001.check(&source(vulnerable));
    assert_eq!(findings.len(), 2);
    for f in &findings {
        assert_eq!(f.severity, Severity::Medium);
        assert_eq!(f.confidence, Confidence::Medium);
    }
}

#[test]
fn rules_are_deterministic() {
    let text = "fn main(pub a: Field, b: Field) {\n    let ok = a == b;\n    let i = b as u8;\n}\nfn nullifier_hash(c: Field) -> Field {\n    std::hash::pedersen_hash([c])\n}\n";
    let s = source(text);
    for rule in registry() {
        assert_eq!(rule.check(&s), rule.check(&SourceView::new("src/main.nr", text)));
    }
}

use zkguard::heuristics::{body_line_to_file_line, find_fn_entry_points, identifier_appears_in_constraint};

#[test]
fn finds_single_entry_point_with_public_param() {
    let source = "fn main(secret: Field, pub claimed_total: Field) {\n    let computed = secret * 2;\n}\n";
    let entries = find_fn_entry_points(source);
    assert_eq!(entries.len(), 1);
    let entry = &entries[0];
    assert_eq!(entry.signature_line, 1);
    assert_eq!(entry.public_params.len(), 1);
    assert_eq!(entry.public_params[0].name, "claimed_total");
    assert_eq!(entry.public_params[0].line, 1);
    assert_eq!(entry.public_params[0].declaration_text, "pub claimed_total: Field");
}

#[test]
fn finds_no_public_params_when_none_declared() {
    let source = "fn main(secret: Field, other: Field) {\n}\n";
    let entries = find_fn_entry_points(source);
    assert_eq!(entries.len(), 1);
    assert!(entries[0].public_params.is_empty());
}

#[test]
fn ignores_non_main_functions() {
    let source = "fn helper(pub x: Field) {\n    assert(x == 0);\n}\n";
    let entries = find_fn_entry_points(source);
    assert!(entries.is_empty());
}

#[test]
fn direct_use_in_assert_is_detected() {
    let body = "let computed = secret * 2;\nassert(computed == claimed_total);\n";
    assert!(identifier_appears_in_constraint(body, "claimed_total"));
}

#[test]
fn unused_identifier_is_not_detected() {
    let body = "let computed = secret * 2;\n";
    assert!(!identifier_appears_in_constraint(body, "claimed_total"));
}

#[test]
fn one_hop_indirection_is_detected() {
    let body = "let x = claimed_total + 1;\nassert(x == computed);\n";
    assert!(identifier_appears_in_constraint(body, "claimed_total"));
}

#[test]
fn println_only_use_is_not_a_constraint() {
    let body = "println(claimed_total);\n";
    assert!(!identifier_appears_in_constraint(body, "claimed_total"));
}

#[test]
fn assert_eq_keyword_is_recognized() {
    let body = "assert_eq(claimed_total, computed);\n";
    assert!(identifier_appears_in_constraint(body, "claimed_total"));
}

#[test]
fn entry_point_records_signature_body_and_lines() {
    let source = "// header\nfn main(\n    a: Field,\n    pub b: Field,\n) {\n    assert(b == a);\n}\n";
    let entries = find_fn_entry_points(source);
    assert_eq!(entries.len(), 1);
    let entry = &entries[0];
    assert_eq!(entry.signature_line, 2);
    assert_eq!(entry.body_start_line, 5);
    assert_eq!(entry.body, "\n    assert(b == a);\n");
    assert_eq!(entry.public_params.len(), 1);
    assert_eq!(entry.public_params[0].name, "b");
    assert_eq!(entry.public_params[0].line, 4);
    assert_eq!(entry.public_params[0].declaration_text, "pub b: Field");
}

#[test]
fn main_without_body_is_not_an_entry_point() {
    assert!(find_fn_entry_points("fn main(pub x: Field)").is_empty());
    assert!(find_fn_entry_points("").is_empty());
}

#[test]
fn identifier_must_match_whole_token() {
    assert!(!identifier_appears_in_constraint("assert(claimed_totals == 1);\n", "claimed_total"));
    assert!(identifier_appears_in_constraint("constrain(claimed_total == 1);\n", "claimed_total"));
}

#[test]
fn body_line_offsets_are_one_based() {
    assert_eq!(body_line_to_file_line(5, 1), 5);
    assert_eq!(body_line_to_file_line(5, 3), 7);
}

#[test]
fn comment_mentioning_entry_point_name_corrupts_param_extraction() {
    let source = "// fn main (the entry point) has no pub params here\nfn main(secret: Field, pub claimed_total: Field) {\n    assert(secret == claimed_total);\n}\n";
    let entries = find_fn_entry_points(source);
    assert_eq!(entries.len(), 1);
    assert_eq!(entries[0].public_params.len(), 1, "{:#?}", entries[0]);
    assert_eq!(entries[0].signature_line, 2);
    assert_eq!(entries[0].public_params[0].name, "claimed_total");
}

#[test]
fn helper_named_after_main_is_not_an_entry_point() {
    assert!(find_fn_entry_points("fn main_helper(pub x: Field) {\n}\n").is_empty());
    assert!(find_fn_entry_points("fn mainx() {}\nfn xfn main() {}\n").is_empty());
    let entries = find_fn_entry_points("fn main_helper() {}\nfn main(pub y: Field) {\n}\n");
    assert_eq!(entries.len(), 1);
    assert_eq!(entries[0].public_params[0].name, "y");
    // A comment after code on the same line also hides the text.
    assert!(find_fn_entry_points("let x = 1; // fn main(pub z: Field) {}\n").is_empty());
}

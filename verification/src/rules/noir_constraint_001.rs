//! `NOIR-CONSTRAINT-001`: boolean/equality/range expression computed but not
//! asserted.

use vstd::prelude::*;

use crate::finding::{located_finding, make_located_finding, Finding, FindingView};
use crate::heuristics::{
    absolute_line, body_line_to_file_line, entry_points_spec, find_fn_entry_points,
    ident_in_constraint, identifier_appears_in_constraint, EntrySpec, FnEntryPoint,
};
use crate::patterns::{bool_lets_upto, find_boolean_let_bindings, BoolLetSpec, BooleanLetBinding};
use crate::rule::{Rule, RuleMetadata, SourceView};
use crate::severity::{Confidence, Severity};

verus! {

pub const RULE_ID: &'static str = "NOIR-CONSTRAINT-001";

pub const TITLE: &'static str = "Computed boolean/equality/range check not asserted";

pub const DESCRIPTION: &'static str = "Detects `let <ident> = <comparison>;` bindings inside `fn main` whose resulting boolean is never passed to assert/assert_eq/constrain, directly or via one intermediate `let` binding.";

pub const WHY_IT_MATTERS: &'static str = "Computing a check without asserting it produces a witness value that looks meaningful but exerts zero constraint pressure on the proof — the circuit accepts inputs the developer intended to reject. This is a frequent root cause of \"the circuit compiles and tests pass but proves false statements\" bugs.";

pub const REMEDIATION: &'static str = "Every security-relevant boolean computed in a circuit must flow into an assert/constrain (or a return-Err-equivalent path enforced by the verifier integration). If the boolean is purely informational, rename it clearly and isolate it from security-relevant variable names to reduce audit ambiguity.";

/// The boolean bindings of an entry point's body.
pub open spec fn entry_bindings(e: EntrySpec) -> Seq<BoolLetSpec> {
    bool_lets_upto(e.body, e.body.len() as int)
}

/// The finding for a binding of entry point `e` that is never asserted.
pub open spec fn binding_finding(path: Seq<char>, e: EntrySpec, b: BoolLetSpec) -> FindingView {
    located_finding(
        RULE_ID@,
        TITLE@,
        Severity::High,
        Confidence::Medium,
        path,
        absolute_line(e.body_start_line, b.line),
        b.statement_text,
        WHY_IT_MATTERS@,
        REMEDIATION@,
    )
}

/// Findings for the first `k` boolean bindings of `e`: one for each whose
/// name reaches no constraint in `e`'s body.
pub open spec fn entry_findings(path: Seq<char>, e: EntrySpec, k: int) -> Seq<FindingView>
    decreases k,
{
    if k <= 0 {
        seq![]
    } else {
        let b = entry_bindings(e)[k - 1];
        entry_findings(path, e, k - 1) + if ident_in_constraint(e.body, b.name) {
            seq![]
        } else {
            seq![binding_finding(path, e, b)]
        }
    }
}

/// Findings for the first `n` entry points of `es`, in order.
pub open spec fn entries_findings(path: Seq<char>, es: Seq<EntrySpec>, n: int) -> Seq<FindingView>
    decreases n,
{
    if n <= 0 {
        seq![]
    } else {
        entries_findings(path, es, n - 1) + entry_findings(
            path,
            es[n - 1],
            entry_bindings(es[n - 1]).len() as int,
        )
    }
}

/// Every finding of this rule on the file `path` with text `src`.
pub open spec fn constraint_findings(path: Seq<char>, src: Seq<char>) -> Seq<FindingView> {
    entries_findings(path, entry_points_spec(src), entry_points_spec(src).len() as int)
}

/// This rule's static metadata.
pub fn metadata() -> (m: RuleMetadata)
    ensures
        m.rule_id@ == RULE_ID@,
        m.title@ == TITLE@,
        m.default_severity == Severity::High,
        m.default_confidence == Confidence::Medium,
        m.description@ == DESCRIPTION@,
{
    RuleMetadata::new(RULE_ID, TITLE, Severity::High, Confidence::Medium, DESCRIPTION)
}

/// Findings for one entry point, appended to `out`.
fn check_entry(path: &str, e: &FnEntryPoint, out: &mut Vec<Finding>)
    ensures
        final(out)@.map_values(|f: Finding| f@) == old(out)@.map_values(|f: Finding| f@)
            + entry_findings(path@, e@, entry_bindings(e@).len() as int),
{
    let bindings = find_boolean_let_bindings(e.body.as_str());
    let ghost bs = bindings@.map_values(|b: BooleanLetBinding| b@);
    let mut k: usize = 0;
    let ghost base = old(out)@.map_values(|f: Finding| f@);
    while k < bindings.len()
        invariant
            k <= bindings@.len(),
            bs == bindings@.map_values(|b: BooleanLetBinding| b@),
            bs == entry_bindings(e@),
            out@.map_values(|f: Finding| f@) == base + entry_findings(path@, e@, k as int),
        decreases bindings@.len() - k,
    {
        let b = &bindings[k];
        assert(b@ == bs[k as int]);
        let ghost prev = out@.map_values(|f: Finding| f@);
        if !identifier_appears_in_constraint(e.body.as_str(), b.name.as_str()) {
            let line = body_line_to_file_line(e.body_start_line, b.line);
            let f = make_located_finding(
                RULE_ID,
                TITLE,
                Severity::High,
                Confidence::Medium,
                path,
                line,
                b.statement_text.as_str(),
                WHY_IT_MATTERS,
                REMEDIATION,
            );
            out.push(f);
            assert(out@.map_values(|f: Finding| f@) =~= prev.push(binding_finding(path@, e@, b@)));
        } else {
            assert(prev + Seq::<FindingView>::empty() =~= prev);
        }
        assert(base + entry_findings(path@, e@, k + 1) =~= base + entry_findings(path@, e@, k as int)
            + (if ident_in_constraint(e@.body, b@.name) {
            Seq::<FindingView>::empty()
        } else {
            seq![binding_finding(path@, e@, b@)]
        }));
        k += 1;
    }
}

/// Flags every `let <name> = <comparison>;` in a `fn main` body whose
/// `<name>` reaches no `assert`/`assert_eq`/`constrain` (directly or through
/// one `let`), at the binding's file line with the statement as evidence.
pub fn check_source(source: &SourceView) -> (r: Vec<Finding>)
    ensures
        r@.map_values(|f: Finding| f@) == constraint_findings(source.path@, source.source@),
{
    let entries = find_fn_entry_points(source.source.as_str());
    let ghost es = entries@.map_values(|e: FnEntryPoint| e@);
    let mut out: Vec<Finding> = Vec::new();
    let mut n: usize = 0;
    assert(out@.map_values(|f: Finding| f@) =~= entries_findings(source.path@, es, 0));
    while n < entries.len()
        invariant
            n <= entries@.len(),
            es == entries@.map_values(|e: FnEntryPoint| e@),
            es == entry_points_spec(source.source@),
            out@.map_values(|f: Finding| f@) == entries_findings(source.path@, es, n as int),
        decreases entries@.len() - n,
    {
        assert(entries@[n as int]@ == es[n as int]);
        check_entry(source.path.as_str(), &entries[n], &mut out);
        n += 1;
    }
    out
}

/// The `NOIR-CONSTRAINT-001` rule.
#[derive(Debug, Default, Clone, Copy)]
pub struct NoirConstraint001;

impl Rule for NoirConstraint001 {
    fn metadata(&self) -> (m: RuleMetadata)
        ensures
            m.rule_id@ == RULE_ID@,
            m.title@ == TITLE@,
            m.default_severity == Severity::High,
            m.default_confidence == Confidence::Medium,
            m.description@ == DESCRIPTION@,
    {
        metadata()
    }

    fn check(&self, source: &SourceView) -> (r: Vec<Finding>)
        ensures
            r@.map_values(|f: Finding| f@) == constraint_findings(source.path@, source.source@),
    {
        check_source(source)
    }
}

} // verus!

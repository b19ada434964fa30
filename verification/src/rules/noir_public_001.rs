//! `NOIR-PUBLIC-001`: public input declared but unused in a
//! constraint-relevant expression.

use vstd::prelude::*;

use crate::finding::{located_finding, make_located_finding, Finding, FindingView};
use crate::heuristics::{
    entry_points_spec, find_fn_entry_points, ident_in_constraint, identifier_appears_in_constraint,
    EntrySpec, FnEntryPoint, ParamSpec,
};
use crate::rule::{Rule, RuleMetadata, SourceView};
use crate::severity::{Confidence, Severity};

verus! {

pub const RULE_ID: &'static str = "NOIR-PUBLIC-001";

pub const TITLE: &'static str = "Public input declared but unused in a constraint-relevant expression";

pub const DESCRIPTION: &'static str = "Detects `pub` parameters of `fn main` that never reach an assert/assert_eq/constrain expression, directly or via one intermediate `let` binding.";

pub const WHY_IT_MATTERS: &'static str = "A public input that never reaches an assert/constrain is not actually bound by the proof — a malicious prover can set it to any value, defeating the purpose of making it public in the first place. This is the canonical \"under-constrained circuit\" bug class in ZK audits.";

pub const REMEDIATION: &'static str = "Bind every public input to at least one constraint that a malicious prover cannot satisfy arbitrarily. If a public input is intentionally informational only, document that decision in code comments next to the parameter and accept the finding as a documented exception.";

/// The finding for an unconstrained public parameter of the file at `path`.
pub open spec fn param_finding(path: Seq<char>, p: ParamSpec) -> FindingView {
    located_finding(
        RULE_ID@,
        TITLE@,
        Severity::High,
        Confidence::Medium,
        path,
        p.line,
        p.declaration_text,
        WHY_IT_MATTERS@,
        REMEDIATION@,
    )
}

/// Findings for the first `k` public parameters of `e`: one for each that
/// does not reach a constraint in `e`'s body.
pub open spec fn entry_findings(path: Seq<char>, e: EntrySpec, k: int) -> Seq<FindingView>
    decreases k,
{
    if k <= 0 {
        seq![]
    } else {
        let p = e.public_params[k - 1];
        entry_findings(path, e, k - 1) + if ident_in_constraint(e.body, p.name) {
            seq![]
        } else {
            seq![param_finding(path, p)]
        }
    }
}

/// Findings for the first `n` entry points of `es`, in order.
pub open spec fn entries_findings(path: Seq<char>, es: Seq<EntrySpec>, n: int) -> Seq<FindingView>
    decreases n,
{
    if n <= 0 {
        seq![]
    } else {
        entries_findings(path, es, n - 1) + entry_findings(
            path,
            es[n - 1],
            es[n - 1].public_params.len() as int,
        )
    }
}

/// Every finding of this rule on the file `path` with text `src`.
pub open spec fn public_findings(path: Seq<char>, src: Seq<char>) -> Seq<FindingView> {
    entries_findings(path, entry_points_spec(src), entry_points_spec(src).len() as int)
}

/// This rule's static metadata.
pub fn metadata() -> (m: RuleMetadata)
    ensures
        m.rule_id@ == RULE_ID@,
        m.title@ == TITLE@,
        m.default_severity == Severity::High,
        m.default_confidence == Confidence::Medium,
        m.description@ == DESCRIPTION@,
{
    RuleMetadata::new(RULE_ID, TITLE, Severity::High, Confidence::Medium, DESCRIPTION)
}

/// Findings for one entry point, appended to `out`.
fn check_entry(path: &str, e: &FnEntryPoint, out: &mut Vec<Finding>)
    ensures
        final(out)@.map_values(|f: Finding| f@) == old(out)@.map_values(|f: Finding| f@)
            + entry_findings(path@, e@, e@.public_params.len() as int),
{
    let mut k: usize = 0;
    let ghost base = old(out)@.map_values(|f: Finding| f@);
    while k < e.public_params.len()
        invariant
            k <= e@.public_params.len(),
            e.public_params@.len() == e@.public_params.len(),
            out@.map_values(|f: Finding| f@) == base + entry_findings(path@, e@, k as int),
        decreases e@.public_params.len() - k,
    {
        let p = &e.public_params[k];
        assert(p@ == e@.public_params[k as int]);
        let ghost prev = out@.map_values(|f: Finding| f@);
        if !identifier_appears_in_constraint(e.body.as_str(), p.name.as_str()) {
            let f = make_located_finding(
                RULE_ID,
                TITLE,
                Severity::High,
                Confidence::Medium,
                path,
                p.line,
                p.declaration_text.as_str(),
                WHY_IT_MATTERS,
                REMEDIATION,
            );
            out.push(f);
            assert(out@.map_values(|f: Finding| f@) =~= prev.push(param_finding(path@, p@)));
        } else {
            assert(prev + Seq::<FindingView>::empty() =~= prev);
        }
        assert(base + entry_findings(path@, e@, k + 1) =~= base + entry_findings(path@, e@, k as int)
            + (if ident_in_constraint(e@.body, p@.name) {
            Seq::<FindingView>::empty()
        } else {
            seq![param_finding(path@, p@)]
        }));
        k += 1;
    }
}

/// Flags every `pub` parameter of every `fn main` of `source` that reaches
/// no `assert`/`assert_eq`/`constrain`, directly or through one `let`
/// binding, at the parameter's line with its declaration as evidence.
pub fn check_source(source: &SourceView) -> (r: Vec<Finding>)
    ensures
        r@.map_values(|f: Finding| f@) == public_findings(source.path@, source.source@),
{
    let entries = find_fn_entry_points(source.source.as_str());
    let ghost es = entries@.map_values(|e: FnEntryPoint| e@);
    let mut out: Vec<Finding> = Vec::new();
    let mut n: usize = 0;
    assert(out@.map_values(|f: Finding| f@) =~= entries_findings(source.path@, es, 0));
    while n < entries.len()
        invariant
            n <= entries@.len(),
            es == entries@.map_values(|e: FnEntryPoint| e@),
            es == entry_points_spec(source.source@),
            out@.map_values(|f: Finding| f@) == entries_findings(source.path@, es, n as int),
        decreases entries@.len() - n,
    {
        assert(entries@[n as int]@ == es[n as int]);
        check_entry(source.path.as_str(), &entries[n], &mut out);
        n += 1;
    }
    out
}

/// The `NOIR-PUBLIC-001` rule.
#[derive(Debug, Default, Clone, Copy)]
pub struct NoirPublic001;

impl Rule for NoirPublic001 {
    fn metadata(&self) -> (m: RuleMetadata)
        ensures
            m.rule_id@ == RULE_ID@,
            m.title@ == TITLE@,
            m.default_severity == Severity::High,
            m.default_confidence == Confidence::Medium,
            m.description@ == DESCRIPTION@,
    {
        metadata()
    }

    fn check(&self, source: &SourceView) -> (r: Vec<Finding>)
        ensures
            r@.map_values(|f: Finding| f@) == public_findings(source.path@, source.source@),
    {
        check_source(source)
    }
}

} // verus!

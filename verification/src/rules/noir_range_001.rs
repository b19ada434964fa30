//! `NOIR-RANGE-001`: numeric value used in a security-sensitive context
//! without an obvious range check.

use vstd::prelude::*;

use crate::finding::{located_finding, make_located_finding, Finding, FindingView};
use crate::heuristics::{
    absolute_line, body_line_to_file_line, entry_points_spec, find_fn_entry_points, EntrySpec,
    FnEntryPoint,
};
use crate::patterns::{
    find_range_sensitive_sites, has_range_check_for_identifier, range_checked, range_sites_upto,
    RangeSensitiveSite, RangeSiteSpec,
};
use crate::rule::{Rule, RuleMetadata, SourceView};
use crate::severity::{Confidence, Severity};

verus! {

pub const RULE_ID: &'static str = "NOIR-RANGE-001";

pub const TITLE: &'static str = "Numeric value used in a security-sensitive context without an obvious range check";

pub const DESCRIPTION: &'static str = "Detects array/slice indexing by a non-constant, non-loop-counter identifier, narrowing integer casts, and unsigned subtraction inside `fn main` with no apparent range-check idiom (assert with a bound, or a range_check/assert_max_bits/ lt/lte helper call) referencing the same identifier.";

pub const WHY_IT_MATTERS: &'static str = "Using an unbounded or wraparound-prone value as an index, bound, or arithmetic operand without an explicit range constraint can let a malicious prover supply out-of-range or wrapped values, producing witnesses that are valid in the field but not in the intended integer domain — a classic source of soundness bugs distinct from normal type checking.";

pub const REMEDIATION: &'static str = "Add an explicit assert bounding the value's range before it is used in indexing, truncating casts, or unsigned subtraction. Prefer well-known, named range-check helpers over ad hoc inequality chains so later static analysis (and human auditors) can recognize the pattern.";

/// The range-sensitive sites of an entry point's body.
pub open spec fn entry_sites(e: EntrySpec) -> Seq<RangeSiteSpec> {
    range_sites_upto(e.body, e.body.len() as int)
}

/// The finding for an unchecked site of entry point `e`.
pub open spec fn site_finding(path: Seq<char>, e: EntrySpec, s: RangeSiteSpec) -> FindingView {
    located_finding(
        RULE_ID@,
        TITLE@,
        Severity::Medium,
        Confidence::Low,
        path,
        absolute_line(e.body_start_line, s.line),
        s.evidence,
        WHY_IT_MATTERS@,
        REMEDIATION@,
    )
}

/// Findings for the first `k` sites of `e`: one for each whose identifier
/// is not range-checked in `e`'s body.
pub open spec fn entry_findings(path: Seq<char>, e: EntrySpec, k: int) -> Seq<FindingView>
    decreases k,
{
    if k <= 0 {
        seq![]
    } else {
        let s = entry_sites(e)[k - 1];
        entry_findings(path, e, k - 1) + if range_checked(e.body, s.identifier) {
            seq![]
        } else {
            seq![site_finding(path, e, s)]
        }
    }
}

/// Findings for the first `n` entry points of `es`, in order.
pub open spec fn entries_findings(path: Seq<char>, es: Seq<EntrySpec>, n: int) -> Seq<FindingView>
    decreases n,
{
    if n <= 0 {
        seq![]
    } else {
        entries_findings(path, es, n - 1) + entry_findings(
            path,
            es[n - 1],
            entry_sites(es[n - 1]).len() as int,
        )
    }
}

/// Every finding of this rule on the file `path` with text `src`.
pub open spec fn range_findings(path: Seq<char>, src: Seq<char>) -> Seq<FindingView> {
    entries_findings(path, entry_points_spec(src), entry_points_spec(src).len() as int)
}

/// This rule's static metadata.
pub fn metadata() -> (m: RuleMetadata)
    ensures
        m.rule_id@ == RULE_ID@,
        m.title@ == TITLE@,
        m.default_severity == Severity::Medium,
        m.default_confidence == Confidence::Low,
        m.description@ == DESCRIPTION@,
{
    RuleMetadata::new(RULE_ID, TITLE, Severity::Medium, Confidence::Low, DESCRIPTION)
}

/// Findings for one entry point, appended to `out`.
fn check_entry(path: &str, e: &FnEntryPoint, out: &mut Vec<Finding>)
    ensures
        final(out)@.map_values(|f: Finding| f@) == old(out)@.map_values(|f: Finding| f@)
            + entry_findings(path@, e@, entry_sites(e@).len() as int),
{
    let sites = find_range_sensitive_sites(e.body.as_str());
    let ghost ss = sites@.map_values(|s: RangeSensitiveSite| s@);
    let mut k: usize = 0;
    let ghost base = old(out)@.map_values(|f: Finding| f@);
    while k < sites.len()
        invariant
            k <= sites@.len(),
            ss == sites@.map_values(|s: RangeSensitiveSite| s@),
            ss == entry_sites(e@),
            out@.map_values(|f: Finding| f@) == base + entry_findings(path@, e@, k as int),
        decreases sites@.len() - k,
    {
        let s = &sites[k];
        assert(s@ == ss[k as int]);
        let ghost prev = out@.map_values(|f: Finding| f@);
        if !has_range_check_for_identifier(e.body.as_str(), s.identifier.as_str()) {
            let line = body_line_to_file_line(e.body_start_line, s.line);
            let f = make_located_finding(
                RULE_ID,
                TITLE,
                Severity::Medium,
                Confidence::Low,
                path,
                line,
                s.evidence.as_str(),
                WHY_IT_MATTERS,
                REMEDIATION,
            );
            out.push(f);
            assert(out@.map_values(|f: Finding| f@) =~= prev.push(site_finding(path@, e@, s@)));
        } else {
            assert(prev + Seq::<FindingView>::empty() =~= prev);
        }
        assert(base + entry_findings(path@, e@, k + 1) =~= base + entry_findings(path@, e@, k as int)
            + (if range_checked(e@.body, s@.identifier) {
            Seq::<FindingView>::empty()
        } else {
            seq![site_finding(path@, e@, s@)]
        }));
        k += 1;
    }
}

/// Flags every range-sensitive site of a `fn main` body (indexing by a
/// non-loop-counter identifier, a cast to a fixed-width integer, a
/// subtraction) whose identifier is not range-checked in that body, at
/// the site's file line with the matched text as evidence.
pub fn check_source(source: &SourceView) -> (r: Vec<Finding>)
    ensures
        r@.map_values(|f: Finding| f@) == range_findings(source.path@, source.source@),
{
    let entries = find_fn_entry_points(source.source.as_str());
    let ghost es = entries@.map_values(|e: FnEntryPoint| e@);
    let mut out: Vec<Finding> = Vec::new();
    let mut n: usize = 0;
    assert(out@.map_values(|f: Finding| f@) =~= entries_findings(source.path@, es, 0));
    while n < entries.len()
        invariant
            n <= entries@.len(),
            es == entries@.map_values(|e: FnEntryPoint| e@),
            es == entry_points_spec(source.source@),
            out@.map_values(|f: Finding| f@) == entries_findings(source.path@, es, n as int),
        decreases entries@.len() - n,
    {
        assert(entries@[n as int]@ == es[n as int]);
        check_entry(source.path.as_str(), &entries[n], &mut out);
        n += 1;
    }
    out
}

/// The `NOIR-RANGE-001` rule.
#[derive(Debug, Default, Clone, Copy)]
pub struct NoirRange001;

impl Rule for NoirRange001 {
    fn metadata(&self) -> (m: RuleMetadata)
        ensures
            m.rule_id@ == RULE_ID@,
            m.title@ == TITLE@,
            m.default_severity == Severity::Medium,
            m.default_confidence == Confidence::Low,
            m.description@ == DESCRIPTION@,
    {
        metadata()
    }

    fn check(&self, source: &SourceView) -> (r: Vec<Finding>)
        ensures
            r@.map_values(|f: Finding| f@) == range_findings(source.path@, source.source@),
    {
        check_source(source)
    }
}

} // verus!

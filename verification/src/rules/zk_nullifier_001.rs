//! `ZK-NULLIFIER-001`: nullifier-like value generated without a visible
//! domain separator. Scans the whole file, not only `fn main`.

use vstd::prelude::*;

use crate::finding::{located_finding, make_located_finding, Finding, FindingView};
use crate::patterns::{
    as_hash_call, find_nullifier_like_sites, hash_call_at, lacks_tag, nullifier_sites_upto,
    NullifierLikeSite, NullifierSpec,
};
use crate::rule::{Rule, RuleMetadata, SourceView};
use crate::severity::{Confidence, Severity};
use crate::text::push_text;

verus! {

pub const RULE_ID: &'static str = "ZK-NULLIFIER-001";

pub const TITLE: &'static str = "Nullifier-like value generated without a visible domain separator";

pub const DESCRIPTION: &'static str = "Detects `let`/function bindings whose name matches a nullifier naming convention (nullifier, null_hash, spent_tag) where the computed value is either not the output of a hash at all, or is a hash call with no apparent domain/context tag argument.";

pub const WHY_IT_MATTERS: &'static str = "A nullifier without a domain separator can potentially be replayed across different circuits, actions, or deployments that share the same underlying secret/index inputs, weakening the uniqueness property the nullifier is meant to guarantee.";

pub const REMEDIATION: &'static str = "Always mix a fixed, action/circuit-specific domain constant into nullifier computation, in addition to (not instead of) the nullifier actually being checked against a set of previously-seen values by the verifier/contract integration.";

pub const RAW_DETAIL: &'static str = "this value is reused directly with no hash at all, which is a stronger structural signal of missing domain separation than an untagged hash";

pub const UNTAGGED_DETAIL: &'static str = "this value is the output of a hash call with no apparent domain/context tag argument";

/// Why a nullifier-like site is flagged, if it is: its expression is not a
/// hash call at all, or a hash call with no domain tag.
pub open spec fn nullifier_detail(expr: Seq<char>) -> Option<Seq<char>> {
    if hash_call_at(expr, 0).len() == 0 {
        Some(RAW_DETAIL@)
    } else if lacks_tag(hash_call_at(expr, 0)[0]) {
        Some(UNTAGGED_DETAIL@)
    } else {
        None
    }
}

/// The evidence `<name> = <expr> (<detail>)`.
pub open spec fn nullifier_evidence(s: NullifierSpec, detail: Seq<char>) -> Seq<char> {
    s.name + seq![' ', '=', ' '] + s.expression_text + seq![' ', '('] + detail + seq![')']
}

/// Findings for the first `n` nullifier-like sites of `ss`.
pub open spec fn sites_findings(path: Seq<char>, ss: Seq<NullifierSpec>, n: int) -> Seq<FindingView>
    decreases n,
{
    if n <= 0 {
        seq![]
    } else {
        let s = ss[n - 1];
        sites_findings(path, ss, n - 1) + match nullifier_detail(s.expression_text) {
            Some(d) => seq![
                located_finding(
                    RULE_ID@,
                    TITLE@,
                    Severity::High,
                    Confidence::Low,
                    path,
                    s.line,
                    nullifier_evidence(s, d),
                    WHY_IT_MATTERS@,
                    REMEDIATION@,
                ),
            ],
            None => seq![],
        }
    }
}

/// Every finding of this rule on the file `path` with text `src`.
pub open spec fn nullifier_findings(path: Seq<char>, src: Seq<char>) -> Seq<FindingView> {
    let ss = nullifier_sites_upto(src, src.len() as int);
    sites_findings(path, ss, ss.len() as int)
}

/// This rule's static metadata.
pub fn metadata() -> (m: RuleMetadata)
    ensures
        m.rule_id@ == RULE_ID@,
        m.title@ == TITLE@,
        m.default_severity == Severity::High,
        m.default_confidence == Confidence::Low,
        m.description@ == DESCRIPTION@,
{
    RuleMetadata::new(RULE_ID, TITLE, Severity::High, Confidence::Low, DESCRIPTION)
}

/// Flags every nullifier-like `let` or single-expression `fn` whose value is
/// not a hash call at all, or a hash call with no domain tag, at its line,
/// with `<name> = <expr> (<why>)` as evidence. Always low confidence.
pub fn check_source(source: &SourceView) -> (r: Vec<Finding>)
    ensures
        r@.map_values(|f: Finding| f@) == nullifier_findings(source.path@, source.source@),
{
    let sites = find_nullifier_like_sites(source.source.as_str());
    let ghost ss = sites@.map_values(|s: NullifierLikeSite| s@);
    let mut out: Vec<Finding> = Vec::new();
    let mut k: usize = 0;
    assert(out@.map_values(|f: Finding| f@) =~= sites_findings(source.path@, ss, 0));
    while k < sites.len()
        invariant
            k <= sites@.len(),
            ss == sites@.map_values(|s: NullifierLikeSite| s@),
            ss == nullifier_sites_upto(source.source@, source.source@.len() as int),
            out@.map_values(|f: Finding| f@) == sites_findings(source.path@, ss, k as int),
        decreases sites@.len() - k,
    {
        let site = &sites[k];
        assert(site@ == ss[k as int]);
        let ghost prev = out@.map_values(|f: Finding| f@);
        let detail: Option<&str> = match as_hash_call(site.expression_text.as_str()) {
            None => Some(RAW_DETAIL),
            Some(h) => {
                if h.lacks_apparent_domain_tag() {
                    Some(UNTAGGED_DETAIL)
                } else {
                    None
                }
            },
        };
        match detail {
            Some(d) => {
                let mut evidence = String::new();
                push_text(&mut evidence, site.name.as_str());
                push_text(&mut evidence, " = ");
                push_text(&mut evidence, site.expression_text.as_str());
                push_text(&mut evidence, " (");
                push_text(&mut evidence, d);
                push_text(&mut evidence, ")");
                proof {
                    reveal_strlit(" = ");
                    reveal_strlit(" (");
                    reveal_strlit(")");
                }
                assert(evidence@ =~= nullifier_evidence(site@, d@));
                let f = make_located_finding(
                    RULE_ID,
                    TITLE,
                    Severity::High,
                    Confidence::Low,
                    source.path.as_str(),
                    site.line,
                    evidence.as_str(),
                    WHY_IT_MATTERS,
                    REMEDIATION,
                );
                out.push(f);
                assert(out@.map_values(|f: Finding| f@) =~= sites_findings(source.path@, ss, k + 1));
            },
            None => {
                assert(out@.map_values(|f: Finding| f@) =~= sites_findings(source.path@, ss, k + 1));
            },
        }
        k += 1;
    }
    out
}

/// The `ZK-NULLIFIER-001` rule.
#[derive(Debug, Default, Clone, Copy)]
pub struct ZkNullifier001;

impl Rule for ZkNullifier001 {
    fn metadata(&self) -> (m: RuleMetadata)
        ensures
            m.rule_id@ == RULE_ID@,
            m.title@ == TITLE@,
            m.default_severity == Severity::High,
            m.default_confidence == Confidence::Low,
            m.description@ == DESCRIPTION@,
    {
        metadata()
    }

    fn check(&self, source: &SourceView) -> (r: Vec<Finding>)
        ensures
            r@.map_values(|f: Finding| f@) == nullifier_findings(source.path@, source.source@),
    {
        check_source(source)
    }
}

} // verus!

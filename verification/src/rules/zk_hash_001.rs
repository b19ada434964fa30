//! `ZK-HASH-001`: hash commitment built from ambiguous concatenation or
//! missing domain tag. Scans the whole file, not only `fn main`.

use vstd::prelude::*;

use crate::finding::{located_finding, make_located_finding, Finding, FindingView};
use crate::patterns::{find_hash_calls, hash_calls_upto, lacks_tag, HashCallSite, HashCallSpec};
use crate::rule::{Rule, RuleMetadata, SourceView};
use crate::severity::{Confidence, Severity};
use crate::text::{decimal, push_decimal, push_text};

verus! {

pub const RULE_ID: &'static str = "ZK-HASH-001";

pub const TITLE: &'static str = "Hash commitment built from ambiguous concatenation or missing domain tag";

pub const DESCRIPTION: &'static str = "Detects calls to hash/commitment functions (callee path containing `hash`, `sha256`, or `pedersen`) built from an inline array literal with no apparent domain/context tag argument, downgrading confidence when no corroborating same-arity call exists elsewhere in the file.";

pub const WHY_IT_MATTERS: &'static str = "Hashing the same shape of inputs for two different semantic purposes (e.g. a leaf commitment and a nullifier) without a domain tag can let values collide across contexts, undermining the uniqueness guarantees the commitment scheme was supposed to provide.";

pub const REMEDIATION: &'static str = "Include a fixed, protocol-specific domain separator (a constant tag) as one of the hash inputs for every distinct commitment purpose, and never reuse the exact same (tag, arity, ordering) shape for two different semantic commitments.";

pub const COLLISION_NOTE_START: &'static str = " (no domain tag; another untagged hash call elsewhere in this file shares the same ";

pub const COLLISION_NOTE_END: &'static str = "-argument shape)";

pub const NO_TAG_NOTE: &'static str = " (no apparent domain tag)";

/// The calls among the first `n` of `hs` that lack a domain tag, in order.
pub open spec fn untagged_upto(hs: Seq<HashCallSpec>, n: int) -> Seq<HashCallSpec>
    decreases n,
{
    if n <= 0 {
        seq![]
    } else {
        untagged_upto(hs, n - 1) + if lacks_tag(hs[n - 1]) {
            seq![hs[n - 1]]
        } else {
            seq![]
        }
    }
}

/// The untagged hash calls of the file text `src`.
pub open spec fn untagged_calls(src: Seq<char>) -> Seq<HashCallSpec> {
    let hs = hash_calls_upto(src, src.len() as int);
    untagged_upto(hs, hs.len() as int)
}

/// Another untagged call than the `i`-th has the same arity.
pub open spec fn has_arity_collision(us: Seq<HashCallSpec>, i: int) -> bool {
    exists|j: int|
        0 <= j < us.len() && j != i && (#[trigger] us[j]).arguments.len() == us[i].arguments.len()
}

/// The evidence for an untagged call: its text and why it is flagged.
pub open spec fn hash_evidence(h: HashCallSpec, collision: bool) -> Seq<char> {
    if collision {
        h.evidence + COLLISION_NOTE_START@ + decimal(h.arguments.len()) + COLLISION_NOTE_END@
    } else {
        h.evidence + NO_TAG_NOTE@
    }
}

/// The finding for the `i`-th untagged call of `us`: medium confidence
/// when another untagged call shares its arity, low otherwise.
pub open spec fn untagged_finding(path: Seq<char>, us: Seq<HashCallSpec>, i: int) -> FindingView {
    let collision = has_arity_collision(us, i);
    located_finding(
        RULE_ID@,
        TITLE@,
        Severity::Medium,
        if collision {
            Confidence::Medium
        } else {
            Confidence::Low
        },
        path,
        us[i].line,
        hash_evidence(us[i], collision),
        WHY_IT_MATTERS@,
        REMEDIATION@,
    )
}

/// Every finding of this rule on the file `path` with text `src`: one per
/// untagged hash call, in source order.
pub open spec fn hash_findings(path: Seq<char>, src: Seq<char>) -> Seq<FindingView> {
    Seq::new(untagged_calls(src).len(), |i: int| untagged_finding(path, untagged_calls(src), i))
}

/// This rule's static metadata.
pub fn metadata() -> (m: RuleMetadata)
    ensures
        m.rule_id@ == RULE_ID@,
        m.title@ == TITLE@,
        m.default_severity == Severity::Medium,
        m.default_confidence == Confidence::Medium,
        m.description@ == DESCRIPTION@,
{
    RuleMetadata::new(RULE_ID, TITLE, Severity::Medium, Confidence::Medium, DESCRIPTION)
}

/// Indices of the untagged calls among `sites`, in order.
fn untagged_indices(sites: &Vec<HashCallSite>) -> (r: Vec<usize>)
    ensures
        r@.len() == untagged_upto(sites@.map_values(|h: HashCallSite| h@), sites@.len() as int).len(),
        forall|t: int|
            0 <= t < r@.len() ==> (#[trigger] r@[t]) < sites@.len() && sites@[r@[t] as int]@
                == untagged_upto(sites@.map_values(|h: HashCallSite| h@), sites@.len() as int)[t],
{
    let ghost hs = sites@.map_values(|h: HashCallSite| h@);
    let mut out: Vec<usize> = Vec::new();
    let mut k: usize = 0;
    while k < sites.len()
        invariant
            k <= sites@.len(),
            hs == sites@.map_values(|h: HashCallSite| h@),
            out@.len() == untagged_upto(hs, k as int).len(),
            forall|t: int|
                0 <= t < out@.len() ==> (#[trigger] out@[t]) < sites@.len() && sites@[out@[t] as int]@
                    == untagged_upto(hs, k as int)[t],
        decreases sites@.len() - k,
    {
        assert(sites@[k as int]@ == hs[k as int]);
        if sites[k].lacks_apparent_domain_tag() {
            out.push(k);
        }
        assert(forall|t: int| 0 <= t < untagged_upto(hs, k as int).len() ==> untagged_upto(hs, k + 1)[t] == untagged_upto(hs, k as int)[t]);
        k += 1;
    }
    out
}

/// Flags every call of a hash/commitment function on an inline array
/// literal with no domain-tag element (no `UPPER_SNAKE_CASE` constant), at
/// the call's line. Confidence stays medium when another untagged call of
/// the file has the same arity and drops to low otherwise.
pub fn check_source(source: &SourceView) -> (r: Vec<Finding>)
    ensures
        r@.map_values(|f: Finding| f@) == hash_findings(source.path@, source.source@),
{
    let sites = find_hash_calls(source.source.as_str());
    let idx = untagged_indices(&sites);
    let ghost us = untagged_calls(source.source@);
    let mut out: Vec<Finding> = Vec::new();
    let mut i: usize = 0;
    while i < idx.len()
        invariant
            i <= idx@.len(),
            idx@.len() == us.len(),
            forall|t: int| 0 <= t < idx@.len() ==> (#[trigger] idx@[t]) < sites@.len() && sites@[idx@[t] as int]@ == us[t],
            out@.len() == i,
            forall|t: int| 0 <= t < i ==> (#[trigger] out@[t])@ == untagged_finding(source.path@, us, t),
        decreases idx@.len() - i,
    {
        let site = &sites[idx[i]];
        assert(site@ == us[i as int]);
        let arity = site.arity();
        let mut collision = false;
        let mut j: usize = 0;
        while j < idx.len()
            invariant
                j <= idx@.len(),
                i < idx@.len(),
                idx@.len() == us.len(),
                arity == us[i as int].arguments.len(),
                forall|t: int| 0 <= t < idx@.len() ==> (#[trigger] idx@[t]) < sites@.len() && sites@[idx@[t] as int]@ == us[t],
                collision == exists|t: int| 0 <= t < j && t != i && (#[trigger] us[t]).arguments.len() == us[i as int].arguments.len(),
            decreases idx@.len() - j,
        {
            assert(sites@[idx@[j as int] as int]@ == us[j as int]);
            if j != i && sites[idx[j]].arity() == arity {
                collision = true;
            }
            j += 1;
        }
        assert(collision == has_arity_collision(us, i as int));
        let mut evidence = String::new();
        push_text(&mut evidence, site.evidence.as_str());
        if collision {
            push_text(&mut evidence, COLLISION_NOTE_START);
            push_decimal(&mut evidence, arity as u64);
            push_text(&mut evidence, COLLISION_NOTE_END);
        } else {
            push_text(&mut evidence, NO_TAG_NOTE);
        }
        assert(evidence@ =~= hash_evidence(us[i as int], collision));
        let confidence = if collision {
            Confidence::Medium
        } else {
            Confidence::Low
        };
        let f = make_located_finding(
            RULE_ID,
            TITLE,
            Severity::Medium,
            confidence,
            source.path.as_str(),
            site.line,
            evidence.as_str(),
            WHY_IT_MATTERS,
            REMEDIATION,
        );
        out.push(f);
        i += 1;
    }
    assert(out@.map_values(|f: Finding| f@) =~= hash_findings(source.path@, source.source@));
    out
}

/// The `ZK-HASH-001` rule.
#[derive(Debug, Default, Clone, Copy)]
pub struct ZkHash001;

impl Rule for ZkHash001 {
    fn metadata(&self) -> (m: RuleMetadata)
        ensures
            m.rule_id@ == RULE_ID@,
            m.title@ == TITLE@,
            m.default_severity == Severity::Medium,
            m.default_confidence == Confidence::Medium,
            m.description@ == DESCRIPTION@,
    {
        metadata()
    }

    fn check(&self, source: &SourceView) -> (r: Vec<Finding>)
        ensures
            r@.map_values(|f: Finding| f@) == hash_findings(source.path@, source.source@),
    {
        check_source(source)
    }
}

} // verus!

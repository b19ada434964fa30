//! The rule registry: the single list of rules that both scanning and
//! rule listing use.

use vstd::prelude::*;

use crate::finding::{Finding, FindingView};
use crate::rule::{MetadataView, ProjectRule, Rule, RuleMetadata, SourceView};
use crate::rules::noir_constraint_001::{self, constraint_findings, NoirConstraint001};
use crate::rules::noir_public_001::{self, public_findings, NoirPublic001};
use crate::rules::noir_range_001::{self, range_findings, NoirRange001};
use crate::rules::zk_hash_001::{self, hash_findings, ZkHash001};
use crate::rules::zk_nullifier_001::{self, nullifier_findings, ZkNullifier001};
use crate::rules::zk_test_001::{self, test_findings, ZkTest001};
use crate::severity::{Confidence, Severity};

verus! {

/// A per-file rule of the registry.
#[derive(Debug, Clone, Copy)]
pub enum FileRule {
    NoirPublic001(NoirPublic001),
    NoirConstraint001(NoirConstraint001),
    NoirRange001(NoirRange001),
    ZkHash001(ZkHash001),
    ZkNullifier001(ZkNullifier001),
}

/// A project-level rule of the registry.
#[derive(Debug, Clone, Copy)]
pub enum ProjectLevelRule {
    ZkTest001(ZkTest001),
}

/// The metadata of a per-file rule.
pub open spec fn file_rule_meta(r: FileRule) -> MetadataView {
    match r {
        FileRule::NoirPublic001(_) => MetadataView {
            rule_id: noir_public_001::RULE_ID@,
            title: noir_public_001::TITLE@,
            default_severity: Severity::High,
            default_confidence: Confidence::Medium,
            description: noir_public_001::DESCRIPTION@,
        },
        FileRule::NoirConstraint001(_) => MetadataView {
            rule_id: noir_constraint_001::RULE_ID@,
            title: noir_constraint_001::TITLE@,
            default_severity: Severity::High,
            default_confidence: Confidence::Medium,
            description: noir_constraint_001::DESCRIPTION@,
        },
        FileRule::NoirRange001(_) => MetadataView {
            rule_id: noir_range_001::RULE_ID@,
            title: noir_range_001::TITLE@,
            default_severity: Severity::Medium,
            default_confidence: Confidence::Low,
            description: noir_range_001::DESCRIPTION@,
        },
        FileRule::ZkHash001(_) => MetadataView {
            rule_id: zk_hash_001::RULE_ID@,
            title: zk_hash_001::TITLE@,
            default_severity: Severity::Medium,
            default_confidence: Confidence::Medium,
            description: zk_hash_001::DESCRIPTION@,
        },
        FileRule::ZkNullifier001(_) => MetadataView {
            rule_id: zk_nullifier_001::RULE_ID@,
            title: zk_nullifier_001::TITLE@,
            default_severity: Severity::High,
            default_confidence: Confidence::Low,
            description: zk_nullifier_001::DESCRIPTION@,
        },
    }
}

/// The findings of a per-file rule on the file `path` with text `src`.
pub open spec fn file_rule_findings(r: FileRule, path: Seq<char>, src: Seq<char>) -> Seq<FindingView> {
    match r {
        FileRule::NoirPublic001(_) => public_findings(path, src),
        FileRule::NoirConstraint001(_) => constraint_findings(path, src),
        FileRule::NoirRange001(_) => range_findings(path, src),
        FileRule::ZkHash001(_) => hash_findings(path, src),
        FileRule::ZkNullifier001(_) => nullifier_findings(path, src),
    }
}

/// The metadata of a project-level rule.
pub open spec fn project_rule_meta(r: ProjectLevelRule) -> MetadataView {
    match r {
        ProjectLevelRule::ZkTest001(_) => MetadataView {
            rule_id: zk_test_001::RULE_ID@,
            title: zk_test_001::TITLE@,
            default_severity: Severity::Low,
            default_confidence: Confidence::Medium,
            description: zk_test_001::DESCRIPTION@,
        },
    }
}

/// The findings of a project-level rule on the sources `ss`.
pub open spec fn project_rule_findings(r: ProjectLevelRule, ss: Seq<SourceView>) -> Seq<FindingView> {
    match r {
        ProjectLevelRule::ZkTest001(_) => test_findings(ss),
    }
}

impl Rule for FileRule {
    fn metadata(&self) -> (m: RuleMetadata)
        ensures
            m@ == file_rule_meta(*self),
    {
        match self {
            FileRule::NoirPublic001(_) => noir_public_001::metadata(),
            FileRule::NoirConstraint001(_) => noir_constraint_001::metadata(),
            FileRule::NoirRange001(_) => noir_range_001::metadata(),
            FileRule::ZkHash001(_) => zk_hash_001::metadata(),
            FileRule::ZkNullifier001(_) => zk_nullifier_001::metadata(),
        }
    }

    fn check(&self, source: &SourceView) -> (r: Vec<Finding>)
        ensures
            r@.map_values(|f: Finding| f@) == file_rule_findings(*self, source.path@, source.source@),
    {
        match self {
            FileRule::NoirPublic001(_) => noir_public_001::check_source(source),
            FileRule::NoirConstraint001(_) => noir_constraint_001::check_source(source),
            FileRule::NoirRange001(_) => noir_range_001::check_source(source),
            FileRule::ZkHash001(_) => zk_hash_001::check_source(source),
            FileRule::ZkNullifier001(_) => zk_nullifier_001::check_source(source),
        }
    }
}

impl ProjectRule for ProjectLevelRule {
    fn metadata(&self) -> (m: RuleMetadata)
        ensures
            m@ == project_rule_meta(*self),
    {
        match self {
            ProjectLevelRule::ZkTest001(_) => zk_test_001::metadata(),
        }
    }

    fn check_project(&self, sources: &[SourceView]) -> (r: Vec<Finding>)
        ensures
            r@.map_values(|f: Finding| f@) == project_rule_findings(*self, sources@),
    {
        match self {
            ProjectLevelRule::ZkTest001(_) => zk_test_001::check_sources(sources),
        }
    }
}

/// The per-file rules, in their stable order.
pub open spec fn registry_spec() -> Seq<FileRule> {
    seq![
        FileRule::NoirPublic001(NoirPublic001),
        FileRule::NoirConstraint001(NoirConstraint001),
        FileRule::NoirRange001(NoirRange001),
        FileRule::ZkHash001(ZkHash001),
        FileRule::ZkNullifier001(ZkNullifier001),
    ]
}

/// The project-level rules, in their stable order.
pub open spec fn project_registry_spec() -> Seq<ProjectLevelRule> {
    seq![ProjectLevelRule::ZkTest001(ZkTest001)]
}

/// Every per-file rule, in a stable order: the list both `scan` and
/// `rules list` use.
pub fn registry() -> (r: Vec<FileRule>)
    ensures
        r@ == registry_spec(),
{
    let r = vec![
        FileRule::NoirPublic001(NoirPublic001),
        FileRule::NoirConstraint001(NoirConstraint001),
        FileRule::NoirRange001(NoirRange001),
        FileRule::ZkHash001(ZkHash001),
        FileRule::ZkNullifier001(ZkNullifier001),
    ];
    assert(r@ =~= registry_spec());
    r
}

/// Every project-level rule, in a stable order.
pub fn project_registry() -> (r: Vec<ProjectLevelRule>)
    ensures
        r@ == project_registry_spec(),
{
    let r = vec![ProjectLevelRule::ZkTest001(ZkTest001)];
    assert(r@ =~= project_registry_spec());
    r
}

/// Rule IDs are unique: no two per-file rules share an ID, and no per-file
/// rule shares its ID with a project-level rule.
pub proof fn law_registry_ids_unique()
    ensures
        forall|i: int, j: int|
            0 <= i < j < registry_spec().len() ==> file_rule_meta(#[trigger] registry_spec()[i]).rule_id
                != file_rule_meta(#[trigger] registry_spec()[j]).rule_id,
        forall|i: int, j: int|
            0 <= i < registry_spec().len() && 0 <= j < project_registry_spec().len()
                ==> file_rule_meta(#[trigger] registry_spec()[i]).rule_id != project_rule_meta(
                #[trigger] project_registry_spec()[j],
            ).rule_id,
{
    reveal_strlit("NOIR-PUBLIC-001");
    reveal_strlit("NOIR-CONSTRAINT-001");
    reveal_strlit("NOIR-RANGE-001");
    reveal_strlit("ZK-HASH-001");
    reveal_strlit("ZK-NULLIFIER-001");
    reveal_strlit("ZK-TEST-001");
    let ids = seq![
        noir_public_001::RULE_ID@,
        noir_constraint_001::RULE_ID@,
        noir_range_001::RULE_ID@,
        zk_hash_001::RULE_ID@,
        zk_nullifier_001::RULE_ID@,
        zk_test_001::RULE_ID@,
    ];
    assert(ids[0][0] == 'N' && ids[1][0] == 'N' && ids[2][0] == 'N');
    assert(ids[3][0] == 'Z' && ids[4][0] == 'Z' && ids[5][0] == 'Z');
    assert(ids[0][5] == 'P' && ids[1][5] == 'C' && ids[2][5] == 'R');
    assert(ids[3][3] == 'H' && ids[4][3] == 'N' && ids[5][3] == 'T');
    assert forall|i: int, j: int| 0 <= i < j < 6 implies ids[i] != ids[j] by {
        if i < 3 && j < 3 {
            assert(ids[i][5] != ids[j][5]);
        } else if i >= 3 && j >= 3 {
            assert(ids[i][3] != ids[j][3]);
        } else {
            assert(ids[i][0] != ids[j][0]);
        }
    }
    assert forall|i: int, j: int| 0 <= i < j < registry_spec().len() implies file_rule_meta(
        #[trigger] registry_spec()[i],
    ).rule_id != file_rule_meta(#[trigger] registry_spec()[j]).rule_id by {
        assert(file_rule_meta(registry_spec()[i]).rule_id == ids[i]);
        assert(file_rule_meta(registry_spec()[j]).rule_id == ids[j]);
    }
    assert forall|i: int, j: int|
        0 <= i < registry_spec().len() && 0 <= j < project_registry_spec().len() implies file_rule_meta(
        #[trigger] registry_spec()[i],
    ).rule_id != project_rule_meta(#[trigger] project_registry_spec()[j]).rule_id by {
        assert(file_rule_meta(registry_spec()[i]).rule_id == ids[i]);
        assert(project_rule_meta(project_registry_spec()[j]).rule_id == ids[5]);
    }
}

} // verus!

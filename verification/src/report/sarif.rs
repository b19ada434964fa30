//! The records of a SARIF 2.1.0 log: one reporting descriptor per rule that
//! ran and one result per finding, each result referring to its descriptor
//! by `ruleId` and, when the rule is known, by `ruleIndex`. Serializing the
//! records is left to the caller.

use vstd::prelude::*;

use crate::config::{normalize, normalize_exec};
use crate::finding::Finding;
use crate::report::labels::{confidence_label, confidence_label_spec};
use crate::rule::RuleMetadata;
use crate::scan::ScanResult;
use crate::severity::Severity;
use crate::text::{chars_of, push_text, slice_of, string_of};

verus! {

pub const SCHEMA: &'static str = "https://json.schemastore.org/sarif-2.1.0.json";

pub const SARIF_VERSION: &'static str = "2.1.0";

pub const TOOL_NAME: &'static str = "zk-guard";

pub const INFORMATION_URI: &'static str = "https://github.com/ThirdChildren/ZK_Guard";

/// SARIF `level` of a severity.
pub open spec fn level_spec(s: Severity) -> Seq<char> {
    match s {
        Severity::Critical | Severity::High => "error"@,
        Severity::Medium => "warning"@,
        Severity::Low | Severity::Info => "note"@,
    }
}

/// SARIF `level` for a finding severity (`error`/`warning`/`note`).
pub fn level_for(s: Severity) -> (r: &'static str)
    ensures
        r@ == level_spec(s),
{
    match s {
        Severity::Critical | Severity::High => "error",
        Severity::Medium => "warning",
        Severity::Low | Severity::Info => "note",
    }
}

/// Code-scanning `security-severity` score of a severity.
pub open spec fn security_severity_spec(s: Severity) -> Seq<char> {
    match s {
        Severity::Critical => "9.0"@,
        Severity::High => "8.0"@,
        Severity::Medium => "5.0"@,
        Severity::Low => "3.0"@,
        Severity::Info => "0.0"@,
    }
}

/// Code-scanning `security-severity` score (a numeric string) of a severity.
pub fn security_severity_for(s: Severity) -> (r: &'static str)
    ensures
        r@ == security_severity_spec(s),
{
    match s {
        Severity::Critical => "9.0",
        Severity::High => "8.0",
        Severity::Medium => "5.0",
        Severity::Low => "3.0",
        Severity::Info => "0.0",
    }
}

/// A repository-relative URI for a path: forward slashes, no leading `./`.
pub fn uri_for(path: &str) -> (r: String)
    ensures
        r@ == normalize(path@),
{
    let p = chars_of(path);
    let n = normalize_exec(&p);
    string_of(&n)
}

/// The message of a finding's result: its explanation (or its title when
/// there is none), then its evidence and its remediation when present.
pub open spec fn message_spec(f: Finding) -> Seq<char> {
    (if f.why_it_matters@.len() == 0 {
        f.title@
    } else {
        f.why_it_matters@
    }) + (if f.evidence@.len() > 0 {
        "\n\nEvidence: "@ + f.evidence@
    } else {
        seq![]
    }) + (if f.remediation@.len() > 0 {
        "\n\nRemediation: "@ + f.remediation@
    } else {
        seq![]
    })
}

/// Composes a self-contained result message from a finding.
pub fn message_for(f: &Finding) -> (r: String)
    ensures
        r@ == message_spec(*f),
{
    let mut out = String::new();
    if f.why_it_matters.as_str().is_empty() {
        push_text(&mut out, f.title.as_str());
    } else {
        push_text(&mut out, f.why_it_matters.as_str());
    }
    let ghost base = out@;
    let mut ev = String::new();
    if !f.evidence.as_str().is_empty() {
        push_text(&mut ev, "\n\nEvidence: ");
        assert(ev@ =~= "\n\nEvidence: "@);
        push_text(&mut ev, f.evidence.as_str());
    } else {
        assert(ev@ =~= Seq::<char>::empty());
    }
    push_text(&mut out, ev.as_str());
    let mut rem = String::new();
    if !f.remediation.as_str().is_empty() {
        push_text(&mut rem, "\n\nRemediation: ");
        assert(rem@ =~= "\n\nRemediation: "@);
        push_text(&mut rem, f.remediation.as_str());
    } else {
        assert(rem@ =~= Seq::<char>::empty());
    }
    push_text(&mut out, rem.as_str());
    assert(out@ =~= message_spec(*f));
    out
}

/// A reporting descriptor: one rule of the log's tool.
#[derive(Debug, Clone, PartialEq)]
pub struct SarifDescriptor {
    pub id: String,
    pub name: String,
    pub short_description: String,
    pub full_description: String,
    /// The `defaultConfiguration.level`.
    pub level: String,
    /// The `properties.security-severity` score.
    pub security_severity: String,
    /// The `properties.confidence` label.
    pub confidence: String,
}

/// One result: a finding located in an artifact.
#[derive(Debug, Clone, PartialEq)]
pub struct SarifResultRecord {
    pub rule_id: String,
    /// Position of the rule's descriptor, when the rule is among the
    /// descriptors.
    pub rule_index: Option<usize>,
    pub level: String,
    pub message: String,
    /// The artifact's repository-relative URI.
    pub uri: String,
    /// The region's start line (always at least 1).
    pub start_line: u32,
}

/// The records of a SARIF log.
#[derive(Debug, Clone, PartialEq)]
pub struct SarifLog {
    pub descriptors: Vec<SarifDescriptor>,
    pub results: Vec<SarifResultRecord>,
}

/// The descriptor of a rule.
pub open spec fn descriptor_spec(d: SarifDescriptor, m: RuleMetadata) -> bool {
    &&& d.id@ == m.rule_id@
    &&& d.name@ == m.title@
    &&& d.short_description@ == m.title@
    &&& d.full_description@ == m.description@
    &&& d.level@ == level_spec(m.default_severity)
    &&& d.security_severity@ == security_severity_spec(m.default_severity)
    &&& d.confidence@ == confidence_label_spec(m.default_confidence)
}

/// Builds the descriptor of a rule from its metadata.
pub fn descriptor_for(m: &RuleMetadata) -> (d: SarifDescriptor)
    ensures
        descriptor_spec(d, *m),
{
    SarifDescriptor {
        id: m.rule_id.clone(),
        name: m.title.clone(),
        short_description: m.title.clone(),
        full_description: m.description.clone(),
        level: level_for(m.default_severity).to_owned(),
        security_severity: security_severity_for(m.default_severity).to_owned(),
        confidence: confidence_label(m.default_confidence).to_owned(),
    }
}

/// SARIF needs `startLine >= 1`: a known line of at least 1, else 1.
pub open spec fn start_line_spec(line: Option<u32>) -> u32 {
    match line {
        Some(l) => if l >= 1 {
            l
        } else {
            1
        },
        None => 1,
    }
}

/// The result of a finding whose rule's descriptor is at `rule_index`.
pub open spec fn result_spec(r: SarifResultRecord, f: Finding, rule_index: Option<usize>) -> bool {
    &&& r.rule_id@ == f.rule_id@
    &&& r.rule_index == rule_index
    &&& r.level@ == level_spec(f.severity)
    &&& r.message@ == message_spec(f)
    &&& r.uri@ == normalize(f.file@)
    &&& r.start_line == start_line_spec(f.line)
}

/// Builds the result of a finding.
pub fn result_for(f: &Finding, rule_index: Option<usize>) -> (r: SarifResultRecord)
    ensures
        result_spec(r, *f, rule_index),
{
    let start_line = match f.line {
        Some(l) => if l >= 1 {
            l
        } else {
            1
        },
        None => 1,
    };
    SarifResultRecord {
        rule_id: f.rule_id.clone(),
        rule_index,
        level: level_for(f.severity).to_owned(),
        message: message_for(f),
        uri: uri_for(f.file.as_str()),
        start_line,
    }
}

/// The last position among the first `n` rules whose ID is `id`.
pub open spec fn last_index_of(rules: Seq<RuleMetadata>, id: Seq<char>, n: int) -> Option<usize>
    decreases n,
{
    if n <= 0 {
        None
    } else if rules[n - 1].rule_id@ == id {
        Some((n - 1) as usize)
    } else {
        last_index_of(rules, id, n - 1)
    }
}

/// Position of the (last) rule with ID `id`.
pub fn rule_index_of(rules: &[RuleMetadata], id: &str) -> (r: Option<usize>)
    ensures
        r == last_index_of(rules@, id@, rules@.len() as int),
{
    let want = chars_of(id);
    let mut k: usize = rules.len();
    while k > 0
        invariant
            k <= rules@.len(),
            want@ == id@,
            last_index_of(rules@, id@, rules@.len() as int) == last_index_of(rules@, id@, k as int),
        decreases k,
    {
        let have = chars_of(rules[k - 1].rule_id.as_str());
        if crate::patterns::same_chars(&have, &want) {
            return Some(k - 1);
        }
        k -= 1;
    }
    None
}

/// The records of the log of `result`: one descriptor per rule in `rules`,
/// in order, and one result per finding, in order, each pointing at the
/// last descriptor with its rule's ID.
pub fn sarif_log(result: &ScanResult, rules: &[RuleMetadata]) -> (log: SarifLog)
    ensures
        log.descriptors@.len() == rules@.len(),
        forall|i: int| 0 <= i < rules@.len() ==> descriptor_spec(#[trigger] log.descriptors@[i], rules@[i]),
        log.results@.len() == result.findings@.len(),
        forall|i: int|
            0 <= i < result.findings@.len() ==> result_spec(
                #[trigger] log.results@[i],
                result.findings@[i],
                last_index_of(rules@, result.findings@[i].rule_id@, rules@.len() as int),
            ),
{
    let mut descriptors: Vec<SarifDescriptor> = Vec::new();
    let mut k: usize = 0;
    while k < rules.len()
        invariant
            k <= rules@.len(),
            descriptors@.len() == k,
            forall|i: int| 0 <= i < k ==> descriptor_spec(#[trigger] descriptors@[i], rules@[i]),
        decreases rules@.len() - k,
    {
        descriptors.push(descriptor_for(&rules[k]));
        k += 1;
    }
    let mut results: Vec<SarifResultRecord> = Vec::new();
    let mut j: usize = 0;
    while j < result.findings.len()
        invariant
            j <= result.findings@.len(),
            results@.len() == j,
            forall|i: int|
                0 <= i < j ==> result_spec(
                    #[trigger] results@[i],
                    result.findings@[i],
                    last_index_of(rules@, result.findings@[i].rule_id@, rules@.len() as int),
                ),
        decreases result.findings@.len() - j,
    {
        let f = &result.findings[j];
        let idx = rule_index_of(rules, f.rule_id.as_str());
        results.push(result_for(f, idx));
        j += 1;
    }
    SarifLog { descriptors, results }
}

} // verus!

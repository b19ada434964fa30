//! `scan`: runs the enabled rules over a discovered project, applies the
//! suppressions, and decides the exit code. Discovery, loading the
//! configuration and writing the report are left to the caller.

use vstd::prelude::*;

use crate::cli::{threshold_severity, OutputFormat, ScanArgs};
use crate::config::{
    active_upto, apply_suppressions, fail_on_spec, rule_enabled, sources_directives,
    sources_warnings, suppressed_parts, suppressed_upto, Config, ConfigView,
};
use crate::discovery::NoirProject;
use crate::exit_code;
use crate::finding::{Finding, FindingView};
use crate::report::{human, markdown};
use crate::rule::{MetadataView, ProjectRule, Rule, RuleMetadata, SourceView};
use crate::rules::registry::{
    file_rule_findings, file_rule_meta, project_registry, project_registry_spec,
    project_rule_findings, project_rule_meta, registry, registry_spec, FileRule, ProjectLevelRule,
};
use crate::scan::{any_at_or_above, ScanResult};
use crate::severity::Severity;
use crate::suppression::SuppressedFinding;

verus! {

/// The per-file rules among the first `n` of the registry that the
/// configuration leaves enabled, in registry order.
pub open spec fn enabled_file_rules(c: ConfigView, n: int) -> Seq<FileRule>
    decreases n,
{
    if n <= 0 {
        seq![]
    } else {
        let r = registry_spec()[n - 1];
        enabled_file_rules(c, n - 1) + if rule_enabled(c, file_rule_meta(r).rule_id) {
            seq![r]
        } else {
            seq![]
        }
    }
}

/// The project-level rules among the first `n` that the configuration
/// leaves enabled.
pub open spec fn enabled_project_rules(c: ConfigView, n: int) -> Seq<ProjectLevelRule>
    decreases n,
{
    if n <= 0 {
        seq![]
    } else {
        let r = project_registry_spec()[n - 1];
        enabled_project_rules(c, n - 1) + if rule_enabled(c, project_rule_meta(r).rule_id) {
            seq![r]
        } else {
            seq![]
        }
    }
}

/// Every enabled per-file rule.
pub open spec fn file_rules_run(c: ConfigView) -> Seq<FileRule> {
    enabled_file_rules(c, registry_spec().len() as int)
}

/// Every enabled project-level rule.
pub open spec fn project_rules_run(c: ConfigView) -> Seq<ProjectLevelRule> {
    enabled_project_rules(c, project_registry_spec().len() as int)
}

/// The metadata of the rules a scan runs: per-file, then project-level.
pub open spec fn rules_run_meta(c: ConfigView) -> Seq<MetadataView> {
    file_rules_run(c).map_values(|r| file_rule_meta(r)) + project_rules_run(c).map_values(
        |r| project_rule_meta(r),
    )
}

/// Findings of the first `k` rules on one source.
pub open spec fn source_findings(rs: Seq<FileRule>, s: SourceView, k: int) -> Seq<FindingView>
    decreases k,
{
    if k <= 0 {
        seq![]
    } else {
        source_findings(rs, s, k - 1) + file_rule_findings(rs[k - 1], s.path@, s.source@)
    }
}

/// Findings of the rules on the first `n` sources, source by source.
pub open spec fn sources_findings(rs: Seq<FileRule>, ss: Seq<SourceView>, n: int) -> Seq<FindingView>
    decreases n,
{
    if n <= 0 {
        seq![]
    } else {
        sources_findings(rs, ss, n - 1) + source_findings(rs, ss[n - 1], rs.len() as int)
    }
}

/// Findings of the first `k` project-level rules.
pub open spec fn project_findings(ps: Seq<ProjectLevelRule>, ss: Seq<SourceView>, k: int) -> Seq<FindingView>
    decreases k,
{
    if k <= 0 {
        seq![]
    } else {
        project_findings(ps, ss, k - 1) + project_rule_findings(ps[k - 1], ss)
    }
}

/// Every finding of the enabled rules on the sources, before suppression:
/// the per-file rules source by source, then the project-level rules.
pub open spec fn raw_findings(c: ConfigView, ss: Seq<SourceView>) -> Seq<FindingView> {
    sources_findings(file_rules_run(c), ss, ss.len() as int) + project_findings(
        project_rules_run(c),
        ss,
        project_rules_run(c).len() as int,
    )
}

/// `n`, saturated to `u32::MAX`.
pub open spec fn saturate_u32(n: nat) -> u32 {
    if n > u32::MAX {
        u32::MAX
    } else {
        n as u32
    }
}

/// The command-line threshold as a severity.
pub open spec fn cli_severity(args: ScanArgs) -> Option<Severity> {
    match args.fail_on {
        Some(t) => Some(threshold_severity(t)),
        None => None,
    }
}

/// The outcome of the analysis part of a scan.
#[derive(Debug)]
pub struct ScanRun {
    /// The result every report renders.
    pub result: ScanResult,
    /// Metadata of the rules that ran, in order (the SARIF descriptors).
    pub rules: Vec<RuleMetadata>,
    /// Warnings about ignored inline suppressions.
    pub warnings: Vec<String>,
    /// The effective fail-on severity.
    pub fail_on: Severity,
}

fn saturating_u32(n: usize) -> (r: u32)
    ensures
        r == saturate_u32(n as nat),
{
    if n > 4294967295usize {
        u32::MAX
    } else {
        n as u32
    }
}

/// The enabled per-file rules, with their metadata.
fn enabled_registry(config: &Config) -> (r: (Vec<FileRule>, Vec<RuleMetadata>))
    ensures
        r.0@ == file_rules_run(config@),
        r.1@.map_values(|m: RuleMetadata| m@) == file_rules_run(config@).map_values(
            |x| file_rule_meta(x),
        ),
{
    let all = registry();
    let mut rules: Vec<FileRule> = Vec::new();
    let mut metas: Vec<RuleMetadata> = Vec::new();
    let mut k: usize = 0;
    while k < all.len()
        invariant
            k <= all@.len(),
            all@ == registry_spec(),
            rules@ == enabled_file_rules(config@, k as int),
            metas@.map_values(|m: RuleMetadata| m@) == enabled_file_rules(config@, k as int).map_values(
                |x| file_rule_meta(x),
            ),
        decreases all@.len() - k,
    {
        let r = all[k];
        let m = r.metadata();
        let ghost before = enabled_file_rules(config@, k as int);
        if config.is_rule_enabled(m.rule_id.as_str()) {
            rules.push(r);
            metas.push(m);
            assert(enabled_file_rules(config@, k + 1) =~= before.push(r));
            assert(before.push(r).map_values(|x| file_rule_meta(x)) =~= before.map_values(
                |x| file_rule_meta(x),
            ).push(file_rule_meta(r)));
        } else {
            assert(enabled_file_rules(config@, k + 1) =~= before);
        }
        k += 1;
    }
    (rules, metas)
}

/// The enabled project-level rules, with their metadata.
fn enabled_project_registry(config: &Config) -> (r: (Vec<ProjectLevelRule>, Vec<RuleMetadata>))
    ensures
        r.0@ == project_rules_run(config@),
        r.1@.map_values(|m: RuleMetadata| m@) == project_rules_run(config@).map_values(
            |x| project_rule_meta(x),
        ),
{
    let all = project_registry();
    let mut rules: Vec<ProjectLevelRule> = Vec::new();
    let mut metas: Vec<RuleMetadata> = Vec::new();
    let mut k: usize = 0;
    while k < all.len()
        invariant
            k <= all@.len(),
            all@ == project_registry_spec(),
            rules@ == enabled_project_rules(config@, k as int),
            metas@.map_values(|m: RuleMetadata| m@) == enabled_project_rules(config@, k as int).map_values(
                |x| project_rule_meta(x),
            ),
        decreases all@.len() - k,
    {
        let r = all[k];
        let m = r.metadata();
        let ghost before = enabled_project_rules(config@, k as int);
        if config.is_rule_enabled(m.rule_id.as_str()) {
            rules.push(r);
            metas.push(m);
            assert(enabled_project_rules(config@, k + 1) =~= before.push(r));
            assert(before.push(r).map_values(|x| project_rule_meta(x)) =~= before.map_values(
                |x| project_rule_meta(x),
            ).push(project_rule_meta(r)));
        } else {
            assert(enabled_project_rules(config@, k + 1) =~= before);
        }
        k += 1;
    }
    (rules, metas)
}

/// The findings of `rules` on every source, then of `project_rules` on
/// all sources.
fn collect_findings(rules: &Vec<FileRule>, project_rules: &Vec<ProjectLevelRule>, sources: &[SourceView]) -> (r: Vec<Finding>)
    ensures
        r@.map_values(|f: Finding| f@) == sources_findings(rules@, sources@, sources@.len() as int)
            + project_findings(project_rules@, sources@, project_rules@.len() as int),
{
    let mut raw: Vec<Finding> = Vec::new();
    let mut i: usize = 0;
    assert(raw@.map_values(|f: Finding| f@) =~= sources_findings(rules@, sources@, 0));
    while i < sources.len()
        invariant
            i <= sources@.len(),
            raw@.map_values(|f: Finding| f@) == sources_findings(rules@, sources@, i as int),
        decreases sources@.len() - i,
    {
        let ghost before = raw@.map_values(|f: Finding| f@);
        let mut k: usize = 0;
        assert(before + source_findings(rules@, sources@[i as int], 0) =~= before);
        while k < rules.len()
            invariant
                k <= rules@.len(),
                i < sources@.len(),
                raw@.map_values(|f: Finding| f@) == before + source_findings(rules@, sources@[i as int], k as int),
            decreases rules@.len() - k,
        {
            let ghost prev = raw@.map_values(|f: Finding| f@);
            let mut found = rules[k].check(&sources[i]);
            let ghost fv = found@.map_values(|f: Finding| f@);
            raw.append(&mut found);
            assert(raw@.map_values(|f: Finding| f@) =~= prev + fv);
            assert(before + source_findings(rules@, sources@[i as int], k + 1) =~= prev + fv);
            k += 1;
        }
        i += 1;
    }
    let ghost first = raw@.map_values(|f: Finding| f@);
    let mut j: usize = 0;
    assert(first + project_findings(project_rules@, sources@, 0) =~= first);
    while j < project_rules.len()
        invariant
            j <= project_rules@.len(),
            raw@.map_values(|f: Finding| f@) == first + project_findings(project_rules@, sources@, j as int),
        decreases project_rules@.len() - j,
    {
        let ghost prev = raw@.map_values(|f: Finding| f@);
        let mut found = project_rules[j].check_project(sources);
        let ghost fv = found@.map_values(|f: Finding| f@);
        raw.append(&mut found);
        assert(raw@.map_values(|f: Finding| f@) =~= prev + fv);
        assert(first + project_findings(project_rules@, sources@, j + 1) =~= prev + fv);
        j += 1;
    }
    raw
}

/// Runs the rules that `config` leaves enabled over `project` (every
/// per-file rule on every source, then the project-level rules), applies
/// the inline and configured suppressions, and assembles the result: the
/// active findings, the number of sources, the IDs of the rules that ran,
/// the number of suppressed findings (and the findings themselves when
/// `show_suppressed`), and the skipped files. The fail-on severity is the
/// command line's, else the configuration's, else `Low`.
pub fn run(args: &ScanArgs, project: NoirProject, config: &Config) -> (r: ScanRun)
    ensures
        r.result.findings@.map_values(|f: Finding| f@) == active_upto(
            raw_findings(config@, project.sources@),
            sources_directives(project.sources@, project.sources@.len() as int),
            config@.suppress,
            raw_findings(config@, project.sources@).len() as int,
        ),
        r.result.suppressed_count == saturate_u32(
            suppressed_upto(
                raw_findings(config@, project.sources@),
                sources_directives(project.sources@, project.sources@.len() as int),
                config@.suppress,
                raw_findings(config@, project.sources@).len() as int,
            ).len(),
        ),
        args.show_suppressed ==> r.result.suppressed@.map_values(|s: SuppressedFinding| suppressed_parts(s))
            == suppressed_upto(
            raw_findings(config@, project.sources@),
            sources_directives(project.sources@, project.sources@.len() as int),
            config@.suppress,
            raw_findings(config@, project.sources@).len() as int,
        ),
        !args.show_suppressed ==> r.result.suppressed@.len() == 0,
        r.result.files_scanned == saturate_u32(project.sources@.len()),
        r.result.rules_run@.map_values(|s: String| s@) == rules_run_meta(config@).map_values(
            |m: MetadataView| m.rule_id,
        ),
        r.result.skipped == project.skipped,
        r.rules@.map_values(|m: RuleMetadata| m@) == rules_run_meta(config@),
        r.warnings@.map_values(|w: String| w@) == sources_warnings(project.sources@, project.sources@.len() as int),
        r.fail_on == fail_on_spec(config@, cli_severity(*args)),
{
    let (file_rules, file_metas) = enabled_registry(config);
    let (project_rules, project_metas) = enabled_project_registry(config);
    let raw = collect_findings(&file_rules, &project_rules, project.sources.as_slice());
    let outcome = apply_suppressions(raw, project.sources.as_slice(), config);
    let suppressed_count = saturating_u32(outcome.suppressed.len());
    let mut rules: Vec<RuleMetadata> = file_metas;
    let mut more = project_metas;
    let ghost fm = rules@.map_values(|m: RuleMetadata| m@);
    let ghost pm = more@.map_values(|m: RuleMetadata| m@);
    rules.append(&mut more);
    assert(rules@.map_values(|m: RuleMetadata| m@) =~= fm + pm);
    let mut rules_run: Vec<String> = Vec::new();
    let mut k: usize = 0;
    while k < rules.len()
        invariant
            k <= rules@.len(),
            rules_run@.len() == k,
            forall|t: int| 0 <= t < k ==> (#[trigger] rules_run@[t])@ == rules@[t].rule_id@,
        decreases rules@.len() - k,
    {
        rules_run.push(rules[k].rule_id.clone());
        k += 1;
    }
    proof {
        let rv = rules_run@.map_values(|s: String| s@);
        let target = rules_run_meta(config@).map_values(|m: MetadataView| m.rule_id);
        let rm = rules@.map_values(|m: RuleMetadata| m@);
        assert(rm == rules_run_meta(config@));
        assert forall|t: int| 0 <= t < rv.len() implies #[trigger] rv[t] == target[t] by {
            assert(rm[t] == rules@[t]@);
        }
        assert(rv =~= target);
    }
    let cli = match args.fail_on {
        Some(t) => Some(t.to_severity()),
        None => None,
    };
    let fail_on = config.effective_fail_on(cli);
    let files_scanned = saturating_u32(project.sources.len());
    let suppressed = if args.show_suppressed {
        outcome.suppressed
    } else {
        Vec::new()
    };
    let result = ScanResult {
        findings: outcome.active,
        files_scanned,
        rules_run,
        suppressed_count,
        suppressed,
        skipped: project.skipped,
    };
    ScanRun { result, rules, warnings: outcome.warnings, fail_on }
}

/// `scan`'s exit code: findings present when some active finding is at
/// least as severe as the fail-on severity, success otherwise.
pub fn exit_code_for(run: &ScanRun) -> (c: i32)
    ensures
        c == if any_at_or_above(run.result.findings@, run.fail_on) {
            exit_code::FINDINGS_PRESENT
        } else {
            exit_code::SUCCESS
        },
{
    if run.result.has_finding_at_or_above(run.fail_on) {
        exit_code::FINDINGS_PRESENT
    } else {
        exit_code::SUCCESS
    }
}

/// The report text for the text formats (human, Markdown); `None` for the
/// formats whose serialization is left to the caller (JSON, SARIF).
pub fn render_text(run: &ScanRun, format: OutputFormat) -> (r: Option<String>)
    ensures
        match format {
            OutputFormat::Human => r matches Some(t) && t@ == human::human_report(run.result),
            OutputFormat::Markdown => r matches Some(t) && t@ == markdown::markdown_report(run.result),
            _ => r is None,
        },
{
    match format {
        OutputFormat::Human => Some(human::render(&run.result)),
        OutputFormat::Markdown => Some(markdown::render(&run.result)),
        _ => None,
    }
}

/// Where the report goes.
#[derive(Debug, Clone, PartialEq)]
pub enum OutputTarget {
    Stdout,
    File(String),
}

pub const OUTPUT_IGNORED: &'static str = "warning: --output is ignored for --format human; writing to stdout";

/// Where the report goes, and the warning to print: `--output` names the
/// file, except for the human format, which always goes to stdout (with a
/// warning when `--output` was given).
pub fn output_target(args: &ScanArgs) -> (r: (OutputTarget, Option<String>))
    ensures
        match args.output {
            None => r.0 == OutputTarget::Stdout && r.1 is None,
            Some(p) => if args.format == OutputFormat::Human {
                r.0 == OutputTarget::Stdout && (r.1 matches Some(w) && w@ == OUTPUT_IGNORED@)
            } else {
                r.0 == OutputTarget::File(p) && r.1 is None
            },
        },
{
    match &args.output {
        None => (OutputTarget::Stdout, None),
        Some(p) => {
            if args.format == OutputFormat::Human {
                (OutputTarget::Stdout, Some(OUTPUT_IGNORED.to_owned()))
            } else {
                (OutputTarget::File(p.clone()), None)
            }
        },
    }
}

} // verus!

//! `rules list`: the registered rules (per-file, then project-level),
//! rendered as a table.

use vstd::prelude::*;

use crate::cli::{OutputFormat, RulesListArgs};
use crate::exit_code;
use crate::report::labels::confidence_label_spec;
use crate::rule::{MetadataView, ProjectRule, Rule, RuleMetadata};
use crate::rules::registry::{
    file_rule_meta, project_registry, project_registry_spec, project_rule_meta, registry,
    registry_spec,
};
use crate::severity::{Confidence, Severity};
use crate::text::{chars_of, push_char, push_text};

verus! {

/// Metadata of every registered rule: the per-file rules, then the
/// project-level rules.
pub open spec fn catalog_spec() -> Seq<MetadataView> {
    registry_spec().map_values(|r| file_rule_meta(r)) + project_registry_spec().map_values(
        |r| project_rule_meta(r),
    )
}

/// Metadata of every registered rule, in registry order.
pub fn rule_catalog() -> (r: Vec<RuleMetadata>)
    ensures
        r@.map_values(|m: RuleMetadata| m@) == catalog_spec(),
{
    let file_rules = registry();
    let project_rules = project_registry();
    let mut out: Vec<RuleMetadata> = Vec::new();
    let mut k: usize = 0;
    while k < file_rules.len()
        invariant
            k <= file_rules@.len(),
            file_rules@ == registry_spec(),
            out@.map_values(|m: RuleMetadata| m@) == registry_spec().take(k as int).map_values(
                |r| file_rule_meta(r),
            ),
        decreases file_rules@.len() - k,
    {
        let m = file_rules[k].metadata();
        out.push(m);
        assert(registry_spec().take(k + 1).map_values(|r| file_rule_meta(r)) =~= registry_spec().take(
            k as int,
        ).map_values(|r| file_rule_meta(r)).push(file_rule_meta(registry_spec()[k as int])));
        k += 1;
    }
    assert(registry_spec().take(registry_spec().len() as int) =~= registry_spec());
    let ghost first = out@.map_values(|m: RuleMetadata| m@);
    let mut j: usize = 0;
    while j < project_rules.len()
        invariant
            j <= project_rules@.len(),
            project_rules@ == project_registry_spec(),
            first == registry_spec().map_values(|r| file_rule_meta(r)),
            out@.map_values(|m: RuleMetadata| m@) == first + project_registry_spec().take(
                j as int,
            ).map_values(|r| project_rule_meta(r)),
        decreases project_rules@.len() - j,
    {
        let m = project_rules[j].metadata();
        out.push(m);
        assert(project_registry_spec().take(j + 1).map_values(|r| project_rule_meta(r))
            =~= project_registry_spec().take(j as int).map_values(|r| project_rule_meta(r)).push(
            project_rule_meta(project_registry_spec()[j as int]),
        ));
        j += 1;
    }
    assert(project_registry_spec().take(project_registry_spec().len() as int) =~= project_registry_spec());
    out
}

/// `n` spaces.
pub open spec fn spaces(n: nat) -> Seq<char> {
    Seq::new(n, |i: int| ' ')
}

/// `s` left-aligned in `w` columns.
pub open spec fn pad(s: Seq<char>, w: nat) -> Seq<char> {
    if s.len() < w {
        s + spaces((w - s.len()) as nat)
    } else {
        s
    }
}

/// Lower-case severity label, left-aligned in ten columns.
pub open spec fn padded_severity(s: Severity) -> Seq<char> {
    match s {
        Severity::Critical => "critical  "@,
        Severity::High => "high      "@,
        Severity::Medium => "medium    "@,
        Severity::Low => "low       "@,
        Severity::Info => "info      "@,
    }
}

/// Lower-case severity label.
pub open spec fn lower_severity(s: Severity) -> Seq<char> {
    match s {
        Severity::Critical => "critical"@,
        Severity::High => "high"@,
        Severity::Medium => "medium"@,
        Severity::Low => "low"@,
        Severity::Info => "info"@,
    }
}

/// Confidence label, left-aligned in ten columns.
pub open spec fn padded_confidence(c: Confidence) -> Seq<char> {
    match c {
        Confidence::High => "high      "@,
        Confidence::Medium => "medium    "@,
        Confidence::Low => "low       "@,
    }
}

fn padded_severity_exec(s: Severity) -> (r: &'static str)
    ensures
        r@ == padded_severity(s),
{
    match s {
        Severity::Critical => "critical  ",
        Severity::High => "high      ",
        Severity::Medium => "medium    ",
        Severity::Low => "low       ",
        Severity::Info => "info      ",
    }
}

fn lower_severity_exec(s: Severity) -> (r: &'static str)
    ensures
        r@ == lower_severity(s),
{
    match s {
        Severity::Critical => "critical",
        Severity::High => "high",
        Severity::Medium => "medium",
        Severity::Low => "low",
        Severity::Info => "info",
    }
}

fn padded_confidence_exec(c: Confidence) -> (r: &'static str)
    ensures
        r@ == padded_confidence(c),
{
    match c {
        Confidence::High => "high      ",
        Confidence::Medium => "medium    ",
        Confidence::Low => "low       ",
    }
}

/// The widest rule ID among the first `n`, and at least `RULE_ID`'s seven.
pub open spec fn id_width(ms: Seq<MetadataView>, n: int) -> nat
    decreases n,
{
    if n <= 0 {
        7
    } else {
        let w = id_width(ms, n - 1);
        if ms[n - 1].rule_id.len() > w {
            ms[n - 1].rule_id.len()
        } else {
            w
        }
    }
}

/// The two lines of one rule.
pub open spec fn human_row(m: MetadataView, w: nat) -> Seq<char> {
    pad(m.rule_id, w) + "  "@ + padded_severity(m.default_severity) + "  "@ + padded_confidence(
        m.default_confidence,
    ) + "  "@ + m.title + "\n"@ + spaces(w) + "  "@ + m.description + "\n"@
}

/// The lines of the first `n` rules.
pub open spec fn human_rows(ms: Seq<MetadataView>, n: int, w: nat) -> Seq<char>
    decreases n,
{
    if n <= 0 {
        seq![]
    } else {
        human_rows(ms, n - 1, w) + human_row(ms[n - 1], w)
    }
}

/// The terminal listing: a header and two lines per rule, the ID column as
/// wide as the widest ID.
pub open spec fn human_listing(ms: Seq<MetadataView>) -> Seq<char> {
    if ms.len() == 0 {
        "No rules registered.\n"@
    } else {
        let w = id_width(ms, ms.len() as int);
        pad("RULE_ID"@, w) + "  SEVERITY    CONFIDENCE  TITLE\n"@ + human_rows(ms, ms.len() as int, w)
    }
}

/// The table row of one rule.
pub open spec fn markdown_row(m: MetadataView) -> Seq<char> {
    "| `"@ + m.rule_id + "` | "@ + m.title + " | "@ + lower_severity(m.default_severity) + " | "@
        + confidence_label_spec(m.default_confidence) + " | "@ + m.description + " |\n"@
}

/// The rows of the first `n` rules.
pub open spec fn markdown_rows(ms: Seq<MetadataView>, n: int) -> Seq<char>
    decreases n,
{
    if n <= 0 {
        seq![]
    } else {
        markdown_rows(ms, n - 1) + markdown_row(ms[n - 1])
    }
}

/// The Markdown listing: a title and a table with one row per rule.
pub open spec fn markdown_listing(ms: Seq<MetadataView>) -> Seq<char> {
    "# zk-guard rule registry\n\n"@ + if ms.len() == 0 {
        "No rules registered.\n"@
    } else {
        "| Rule ID | Title | Severity | Confidence | Description |\n"@ + "|---|---|---|---|---|\n"@
            + markdown_rows(ms, ms.len() as int)
    }
}

/// Appends `n` spaces.
fn push_spaces(out: &mut String, n: usize)
    ensures
        final(out)@ == old(out)@ + spaces(n as nat),
{
    let mut k: usize = 0;
    while k < n
        invariant
            k <= n,
            out@ == old(out)@ + spaces(k as nat),
        decreases n - k,
    {
        push_char(out, ' ');
        assert(old(out)@ + spaces((k + 1) as nat) =~= old(out)@ + spaces(k as nat) + seq![' ']);
        k += 1;
    }
}

/// Appends `s` left-aligned in `w` columns.
fn push_padded(out: &mut String, s: &str, w: usize)
    ensures
        final(out)@ == old(out)@ + pad(s@, w as nat),
{
    let n = chars_of(s).len();
    push_text(out, s);
    if n < w {
        push_spaces(out, w - n);
    }
}

/// Renders the terminal listing of `metadata`.
pub fn render_human(metadata: &[RuleMetadata]) -> (r: String)
    ensures
        r@ == human_listing(metadata@.map_values(|m: RuleMetadata| m@)),
{
    let mut out = String::new();
    if metadata.len() == 0 {
        push_text(&mut out, "No rules registered.\n");
        assert(out@ =~= "No rules registered.\n"@);
        return out;
    }
    let ghost mv = metadata@.map_values(|m: RuleMetadata| m@);
    let mut w: usize = 7;
    let mut k: usize = 0;
    while k < metadata.len()
        invariant
            k <= metadata@.len(),
            mv == metadata@.map_values(|m: RuleMetadata| m@),
            w as nat == id_width(mv, k as int),
        decreases metadata@.len() - k,
    {
        let n = chars_of(metadata[k].rule_id.as_str()).len();
        if n > w {
            w = n;
        }
        k += 1;
    }
    push_padded(&mut out, "RULE_ID", w);
    assert(out@ =~= pad("RULE_ID"@, w as nat));
    push_text(&mut out, "  SEVERITY    CONFIDENCE  TITLE\n");
    let ghost head = out@;
    let mut rows = String::new();
    let mut j: usize = 0;
    assert(rows@ =~= human_rows(mv, 0, w as nat));
    while j < metadata.len()
        invariant
            j <= metadata@.len(),
            mv == metadata@.map_values(|m: RuleMetadata| m@),
            rows@ == human_rows(mv, j as int, w as nat),
        decreases metadata@.len() - j,
    {
        let m = &metadata[j];
        assert(mv[j as int] == m@);
        let mut row = String::new();
        push_padded(&mut row, m.rule_id.as_str(), w);
        assert(row@ =~= pad(m.rule_id@, w as nat));
        push_text(&mut row, "  ");
        push_text(&mut row, padded_severity_exec(m.default_severity));
        push_text(&mut row, "  ");
        push_text(&mut row, padded_confidence_exec(m.default_confidence));
        push_text(&mut row, "  ");
        push_text(&mut row, m.title.as_str());
        push_text(&mut row, "\n");
        push_spaces(&mut row, w);
        push_text(&mut row, "  ");
        push_text(&mut row, m.description.as_str());
        push_text(&mut row, "\n");
        push_text(&mut rows, row.as_str());
        j += 1;
    }
    push_text(&mut out, rows.as_str());
    out
}

/// Renders the Markdown listing of `metadata`.
pub fn render_markdown(metadata: &[RuleMetadata]) -> (r: String)
    ensures
        r@ == markdown_listing(metadata@.map_values(|m: RuleMetadata| m@)),
{
    let mut out = String::new();
    push_text(&mut out, "# zk-guard rule registry\n\n");
    assert(out@ =~= "# zk-guard rule registry\n\n"@);
    let mut body = String::new();
    if metadata.len() == 0 {
        push_text(&mut body, "No rules registered.\n");
        assert(body@ =~= "No rules registered.\n"@);
    } else {
        push_text(&mut body, "| Rule ID | Title | Severity | Confidence | Description |\n");
        assert(body@ =~= "| Rule ID | Title | Severity | Confidence | Description |\n"@);
        push_text(&mut body, "|---|---|---|---|---|\n");
        let ghost mv = metadata@.map_values(|m: RuleMetadata| m@);
        let mut rows = String::new();
        assert(rows@ =~= markdown_rows(mv, 0));
        let mut j: usize = 0;
        while j < metadata.len()
            invariant
                j <= metadata@.len(),
                mv == metadata@.map_values(|m: RuleMetadata| m@),
                rows@ == markdown_rows(mv, j as int),
            decreases metadata@.len() - j,
        {
            let m = &metadata[j];
            assert(mv[j as int] == m@);
            let mut row = String::new();
            push_text(&mut row, "| `");
            assert(row@ =~= "| `"@);
            push_text(&mut row, m.rule_id.as_str());
            push_text(&mut row, "` | ");
            push_text(&mut row, m.title.as_str());
            push_text(&mut row, " | ");
            push_text(&mut row, lower_severity_exec(m.default_severity));
            push_text(&mut row, " | ");
            push_text(&mut row, crate::report::labels::confidence_label(m.default_confidence));
            push_text(&mut row, " | ");
            push_text(&mut row, m.description.as_str());
            push_text(&mut row, " |\n");
            push_text(&mut rows, row.as_str());
            j += 1;
        }
        push_text(&mut body, rows.as_str());
    }
    push_text(&mut out, body.as_str());
    out
}

/// What `rules list` produces.
#[derive(Debug)]
pub enum RulesListing {
    /// Text to print (human or Markdown).
    Rendered(String),
    /// The metadata, to print as JSON.
    Metadata(Vec<RuleMetadata>),
    /// The format is refused; the message goes to stderr.
    Rejected(String),
}

pub const SARIF_REJECTED: &'static str = "error: --format sarif is only supported by `zk-guard scan`, not `rules list`";

/// `rules list`: the catalog rendered in the requested format, its metadata
/// for JSON, or a rejection of SARIF (which describes scan results, not the
/// registry).
pub fn run(args: &RulesListArgs) -> (r: RulesListing)
    ensures
        match args.format {
            OutputFormat::Human => r matches RulesListing::Rendered(t) && t@ == human_listing(
                catalog_spec(),
            ),
            OutputFormat::Markdown => r matches RulesListing::Rendered(t) && t@ == markdown_listing(
                catalog_spec(),
            ),
            OutputFormat::Json => r matches RulesListing::Metadata(ms) && ms@.map_values(
                |m: RuleMetadata| m@,
            ) == catalog_spec(),
            OutputFormat::Sarif => r matches RulesListing::Rejected(msg) && msg@ == SARIF_REJECTED@,
        },
{
    let catalog = rule_catalog();
    match args.format {
        OutputFormat::Human => RulesListing::Rendered(render_human(catalog.as_slice())),
        OutputFormat::Markdown => RulesListing::Rendered(render_markdown(catalog.as_slice())),
        OutputFormat::Json => RulesListing::Metadata(catalog),
        OutputFormat::Sarif => RulesListing::Rejected(SARIF_REJECTED.to_owned()),
    }
}

/// The exit code of a listing: success unless the format was rejected.
pub fn listing_exit_code(l: &RulesListing) -> (c: i32)
    ensures
        c == if l is Rejected {
            exit_code::USAGE_ERROR
        } else {
            exit_code::SUCCESS
        },
{
    match l {
        RulesListing::Rejected(_) => exit_code::USAGE_ERROR,
        _ => exit_code::SUCCESS,
    }
}

} // verus!

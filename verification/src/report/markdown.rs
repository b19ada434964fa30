//! Markdown report (GitHub-flavored): a summary with a count table by
//! severity, one section per finding (most severe first), then the skipped
//! files and the suppressed findings when there are any.

use vstd::prelude::*;

use crate::finding::Finding;
pub use crate::report::labels::location_suffix;
use crate::report::labels::{
    confidence_label, confidence_label_spec, location_suffix_spec, severity_label,
    severity_label_spec, skip_kind_label, skip_kind_label_spec,
};
use crate::scan::{sorted_most_severe_first, with_severity, ScanResult};
use crate::severity::Severity;
use crate::skipped::SkippedFile;
use crate::suppression::{SuppressedFinding, SuppressionKind};
use crate::text::{decimal, push_decimal, push_text};

verus! {

/// Where a suppression was declared, as the Markdown report says it.
pub open spec fn md_suppression_source(k: SuppressionKind) -> Seq<char> {
    match k {
        SuppressionKind::Inline => "inline directive"@,
        SuppressionKind::Config => "`zkguard.toml`"@,
    }
}

fn md_suppression_source_exec(k: SuppressionKind) -> (r: &'static str)
    ensures
        r@ == md_suppression_source(k),
{
    match k {
        SuppressionKind::Inline => "inline directive",
        SuppressionKind::Config => "`zkguard.toml`",
    }
}

/// The first `n` rule IDs, each in backticks, separated by `, `.
pub open spec fn joined_ids(rr: Seq<String>, n: int) -> Seq<char>
    decreases n,
{
    if n <= 0 {
        seq![]
    } else if n == 1 {
        "`"@ + rr[0]@ + "`"@
    } else {
        joined_ids(rr, n - 1) + ", "@ + "`"@ + rr[n - 1]@ + "`"@
    }
}

/// The table row of one severity.
pub open spec fn md_severity_row(fs: Seq<Finding>, s: Severity) -> Seq<char> {
    "| "@ + severity_label_spec(s) + " | "@ + decimal(with_severity(fs, s).len()) + " |\n"@
}

/// The summary section.
pub open spec fn md_summary(r: ScanResult) -> Seq<char> {
    let fs = r.findings@;
    "## Summary\n\n"@ + "- Files scanned: **"@ + decimal(r.files_scanned as nat) + "**\n"@
        + "- Rules run: **"@ + decimal(r.rules_run@.len()) + "** ("@ + (if r.rules_run@.len() == 0 {
        "none"@
    } else {
        joined_ids(r.rules_run@, r.rules_run@.len() as int)
    }) + ")\n"@ + "- Total findings: **"@ + decimal(fs.len()) + "**\n"@ + (if r.suppressed_count > 0 {
        "- Suppressed: **"@ + decimal(r.suppressed_count as nat) + "**\n"@
    } else {
        seq![]
    }) + (if r.skipped@.len() > 0 {
        "- Skipped (unreadable/non-UTF-8): **"@ + decimal(r.skipped@.len()) + "**\n"@
    } else {
        seq![]
    }) + "\n"@ + "| Severity | Count |\n"@ + "|---|---|\n"@ + md_severity_row(fs, Severity::Critical)
        + md_severity_row(fs, Severity::High) + md_severity_row(fs, Severity::Medium)
        + md_severity_row(fs, Severity::Low) + md_severity_row(fs, Severity::Info) + "\n"@
}

/// The section of the finding numbered `idx + 1`.
pub open spec fn md_block(idx: int, f: Finding) -> Seq<char> {
    "### "@ + decimal((idx + 1) as nat) + ". "@ + f.title@ + " ("@ + f.rule_id@ + ")\n\n"@
        + "| Field | Value |\n"@ + "|---|---|\n"@ + "| Rule ID | `"@ + f.rule_id@ + "` |\n"@
        + "| Severity | "@ + severity_label_spec(f.severity) + " |\n"@ + "| Confidence | "@
        + confidence_label_spec(f.confidence) + " |\n"@ + "| Location | `"@ + f.file@
        + location_suffix_spec(f.line, f.column) + "` |\n"@ + "\n"@ + "**Evidence**\n\n"@
        + "```\n"@ + f.evidence@ + "\n```\n\n"@ + "**Why it matters**\n\n"@ + f.why_it_matters@
        + "\n\n"@ + "**Remediation**\n\n"@ + f.remediation@ + "\n\n"@
}

/// The sections of the first `n` findings.
pub open spec fn md_blocks(fs: Seq<Finding>, n: int) -> Seq<char>
    decreases n,
{
    if n <= 0 {
        seq![]
    } else {
        md_blocks(fs, n - 1) + md_block(n - 1, fs[n - 1])
    }
}

/// The table row of one skipped file.
pub open spec fn md_skipped_row(s: SkippedFile) -> Seq<char> {
    "| `"@ + s.path@ + "` | "@ + skip_kind_label_spec(s.kind) + " | "@ + s.reason@ + " |\n"@
}

/// The table rows of the first `n` skipped files.
pub open spec fn md_skipped_rows(ss: Seq<SkippedFile>, n: int) -> Seq<char>
    decreases n,
{
    if n <= 0 {
        seq![]
    } else {
        md_skipped_rows(ss, n - 1) + md_skipped_row(ss[n - 1])
    }
}

/// The skipped-files section, present only when files were skipped.
pub open spec fn md_skipped(r: ScanResult) -> Seq<char> {
    if r.skipped@.len() == 0 {
        seq![]
    } else {
        "## Skipped files\n\n"@ + "Discovery could not read these files; they were skipped "@
            + "(the scan is partial). This is a warning, not a finding.\n\n"@
            + "| File | Kind | Reason |\n"@ + "|---|---|---|\n"@ + md_skipped_rows(
            r.skipped@,
            r.skipped@.len() as int,
        ) + "\n"@
    }
}

/// The table row of one suppressed finding.
pub open spec fn md_suppressed_row(s: SuppressedFinding) -> Seq<char> {
    "| `"@ + s.finding.rule_id@ + "` | `"@ + s.finding.file@ + location_suffix_spec(
        s.finding.line,
        s.finding.column,
    ) + "` | "@ + md_suppression_source(s.suppressed_by) + " | "@ + s.reason@ + " |\n"@
}

/// The table rows of the first `n` suppressed findings.
pub open spec fn md_suppressed_rows(ss: Seq<SuppressedFinding>, n: int) -> Seq<char>
    decreases n,
{
    if n <= 0 {
        seq![]
    } else {
        md_suppressed_rows(ss, n - 1) + md_suppressed_row(ss[n - 1])
    }
}

/// The suppressed-findings section, present only when there are any.
pub open spec fn md_suppressed(r: ScanResult) -> Seq<char> {
    if r.suppressed@.len() == 0 {
        seq![]
    } else {
        "## Suppressed findings\n\n"@ + "| Rule ID | Location | Suppressed by | Reason |\n"@
            + "|---|---|---|---|\n"@ + md_suppressed_rows(r.suppressed@, r.suppressed@.len() as int)
            + "\n"@
    }
}

/// The whole Markdown report.
pub open spec fn markdown_report(r: ScanResult) -> Seq<char> {
    let sorted = sorted_most_severe_first(r.findings@);
    "# zk-guard scan report\n\n"@ + md_summary(r) + (if sorted.len() == 0 {
        "No findings reached the configured failure threshold.\n"@
    } else {
        "## Findings\n\n"@ + md_blocks(sorted, sorted.len() as int)
    }) + md_skipped(r) + md_suppressed(r)
}

fn joined_ids_text(rr: &Vec<String>) -> (t: String)
    requires
        rr@.len() > 0,
    ensures
        t@ == joined_ids(rr@, rr@.len() as int),
{
    let mut out = String::new();
    push_text(&mut out, "`");
    assert(out@ =~= "`"@);
    push_text(&mut out, rr[0].as_str());
    push_text(&mut out, "`");
    let mut k: usize = 1;
    while k < rr.len()
        invariant
            1 <= k <= rr@.len(),
            out@ == joined_ids(rr@, k as int),
        decreases rr@.len() - k,
    {
        push_text(&mut out, ", ");
        push_text(&mut out, "`");
        push_text(&mut out, rr[k].as_str());
        push_text(&mut out, "`");
        k += 1;
    }
    out
}

fn severity_row_text(r: &ScanResult, s: Severity) -> (t: String)
    ensures
        t@ == md_severity_row(r.findings@, s),
{
    let mut out = String::new();
    push_text(&mut out, "| ");
    assert(out@ =~= "| "@);
    push_text(&mut out, severity_label(s));
    push_text(&mut out, " | ");
    push_decimal(&mut out, r.count_by_severity(s) as u64);
    push_text(&mut out, " |\n");
    out
}

fn summary_text(r: &ScanResult) -> (t: String)
    ensures
        t@ == md_summary(*r),
{
    let mut out = String::new();
    push_text(&mut out, "## Summary\n\n");
    assert(out@ =~= "## Summary\n\n"@);
    push_text(&mut out, "- Files scanned: **");
    push_decimal(&mut out, r.files_scanned as u64);
    push_text(&mut out, "**\n");
    push_text(&mut out, "- Rules run: **");
    push_decimal(&mut out, r.rules_run.len() as u64);
    push_text(&mut out, "** (");
    if r.rules_run.len() == 0 {
        push_text(&mut out, "none");
    } else {
        let ids = joined_ids_text(&r.rules_run);
        push_text(&mut out, ids.as_str());
    }
    push_text(&mut out, ")\n");
    push_text(&mut out, "- Total findings: **");
    push_decimal(&mut out, r.total_findings() as u64);
    push_text(&mut out, "**\n");
    let mut sup = String::new();
    if r.suppressed_count > 0 {
        push_text(&mut sup, "- Suppressed: **");
        assert(sup@ =~= "- Suppressed: **"@);
        push_decimal(&mut sup, r.suppressed_count as u64);
        push_text(&mut sup, "**\n");
    } else {
        assert(sup@ =~= Seq::<char>::empty());
    }
    push_text(&mut out, sup.as_str());
    let mut skip = String::new();
    if r.skipped.len() > 0 {
        push_text(&mut skip, "- Skipped (unreadable/non-UTF-8): **");
        assert(skip@ =~= "- Skipped (unreadable/non-UTF-8): **"@);
        push_decimal(&mut skip, r.skipped.len() as u64);
        push_text(&mut skip, "**\n");
    } else {
        assert(skip@ =~= Seq::<char>::empty());
    }
    push_text(&mut out, skip.as_str());
    push_text(&mut out, "\n");
    push_text(&mut out, "| Severity | Count |\n");
    push_text(&mut out, "|---|---|\n");
    let r1 = severity_row_text(r, Severity::Critical);
    push_text(&mut out, r1.as_str());
    let r2 = severity_row_text(r, Severity::High);
    push_text(&mut out, r2.as_str());
    let r3 = severity_row_text(r, Severity::Medium);
    push_text(&mut out, r3.as_str());
    let r4 = severity_row_text(r, Severity::Low);
    push_text(&mut out, r4.as_str());
    let r5 = severity_row_text(r, Severity::Info);
    push_text(&mut out, r5.as_str());
    push_text(&mut out, "\n");
    out
}

fn block_text(idx: usize, f: &Finding) -> (t: String)
    requires
        idx < usize::MAX,
    ensures
        t@ == md_block(idx as int, *f),
{
    let mut out = String::new();
    push_text(&mut out, "### ");
    assert(out@ =~= "### "@);
    push_decimal(&mut out, idx as u64 + 1);
    push_text(&mut out, ". ");
    push_text(&mut out, f.title.as_str());
    push_text(&mut out, " (");
    push_text(&mut out, f.rule_id.as_str());
    push_text(&mut out, ")\n\n");
    push_text(&mut out, "| Field | Value |\n");
    push_text(&mut out, "|---|---|\n");
    push_text(&mut out, "| Rule ID | `");
    push_text(&mut out, f.rule_id.as_str());
    push_text(&mut out, "` |\n");
    push_text(&mut out, "| Severity | ");
    push_text(&mut out, severity_label(f.severity));
    push_text(&mut out, " |\n");
    push_text(&mut out, "| Confidence | ");
    push_text(&mut out, confidence_label(f.confidence));
    push_text(&mut out, " |\n");
    push_text(&mut out, "| Location | `");
    push_text(&mut out, f.file.as_str());
    let loc = location_suffix(f.line, f.column);
    push_text(&mut out, loc.as_str());
    push_text(&mut out, "` |\n");
    push_text(&mut out, "\n");
    push_text(&mut out, "**Evidence**\n\n");
    push_text(&mut out, "```\n");
    push_text(&mut out, f.evidence.as_str());
    push_text(&mut out, "\n```\n\n");
    push_text(&mut out, "**Why it matters**\n\n");
    push_text(&mut out, f.why_it_matters.as_str());
    push_text(&mut out, "\n\n");
    push_text(&mut out, "**Remediation**\n\n");
    push_text(&mut out, f.remediation.as_str());
    push_text(&mut out, "\n\n");
    out
}

fn skipped_text(r: &ScanResult) -> (t: String)
    ensures
        t@ == md_skipped(*r),
{
    let mut out = String::new();
    if r.skipped.len() == 0 {
        assert(out@ =~= md_skipped(*r));
        return out;
    }
    push_text(&mut out, "## Skipped files\n\n");
    assert(out@ =~= "## Skipped files\n\n"@);
    push_text(&mut out, "Discovery could not read these files; they were skipped ");
    push_text(&mut out, "(the scan is partial). This is a warning, not a finding.\n\n");
    push_text(&mut out, "| File | Kind | Reason |\n");
    push_text(&mut out, "|---|---|---|\n");
    let mut rows = String::new();
    assert(rows@ =~= md_skipped_rows(r.skipped@, 0));
    let mut k: usize = 0;
    while k < r.skipped.len()
        invariant
            k <= r.skipped@.len(),
            rows@ == md_skipped_rows(r.skipped@, k as int),
        decreases r.skipped@.len() - k,
    {
        let s = &r.skipped[k];
        let mut row = String::new();
        push_text(&mut row, "| `");
        assert(row@ =~= "| `"@);
        push_text(&mut row, s.path.as_str());
        push_text(&mut row, "` | ");
        push_text(&mut row, skip_kind_label(s.kind));
        push_text(&mut row, " | ");
        push_text(&mut row, s.reason.as_str());
        push_text(&mut row, " |\n");
        push_text(&mut rows, row.as_str());
        k += 1;
    }
    push_text(&mut out, rows.as_str());
    push_text(&mut out, "\n");
    out
}

fn suppressed_text(r: &ScanResult) -> (t: String)
    ensures
        t@ == md_suppressed(*r),
{
    let mut out = String::new();
    if r.suppressed.len() == 0 {
        assert(out@ =~= md_suppressed(*r));
        return out;
    }
    push_text(&mut out, "## Suppressed findings\n\n");
    assert(out@ =~= "## Suppressed findings\n\n"@);
    push_text(&mut out, "| Rule ID | Location | Suppressed by | Reason |\n");
    push_text(&mut out, "|---|---|---|---|\n");
    let mut rows = String::new();
    assert(rows@ =~= md_suppressed_rows(r.suppressed@, 0));
    let mut k: usize = 0;
    while k < r.suppressed.len()
        invariant
            k <= r.suppressed@.len(),
            rows@ == md_suppressed_rows(r.suppressed@, k as int),
        decreases r.suppressed@.len() - k,
    {
        let s = &r.suppressed[k];
        let mut row = String::new();
        push_text(&mut row, "| `");
        assert(row@ =~= "| `"@);
        push_text(&mut row, s.finding.rule_id.as_str());
        push_text(&mut row, "` | `");
        push_text(&mut row, s.finding.file.as_str());
        let loc = location_suffix(s.finding.line, s.finding.column);
        push_text(&mut row, loc.as_str());
        push_text(&mut row, "` | ");
        push_text(&mut row, md_suppression_source_exec(s.suppressed_by));
        push_text(&mut row, " | ");
        push_text(&mut row, s.reason.as_str());
        push_text(&mut row, " |\n");
        push_text(&mut rows, row.as_str());
        k += 1;
    }
    push_text(&mut out, rows.as_str());
    push_text(&mut out, "\n");
    out
}

/// Renders `result` as one Markdown document: the summary, then either
/// the findings (most severe first, numbered) or a no-findings line, then
/// the skipped files and the suppressed findings when there are any.
pub fn render(result: &ScanResult) -> (r: String)
    ensures
        r@ == markdown_report(*result),
{
    let mut out = String::new();
    push_text(&mut out, "# zk-guard scan report\n\n");
    assert(out@ =~= "# zk-guard scan report\n\n"@);
    let summary = summary_text(result);
    push_text(&mut out, summary.as_str());
    let sorted = result.sorted_by_severity();
    let mut body = String::new();
    if sorted.len() == 0 {
        push_text(&mut body, "No findings reached the configured failure threshold.\n");
        assert(body@ =~= "No findings reached the configured failure threshold.\n"@);
    } else {
        push_text(&mut body, "## Findings\n\n");
        assert(body@ =~= "## Findings\n\n"@);
        let mut blocks = String::new();
        assert(blocks@ =~= md_blocks(sorted@, 0));
        let mut k: usize = 0;
        while k < sorted.len()
            invariant
                k <= sorted@.len(),
                blocks@ == md_blocks(sorted@, k as int),
            decreases sorted@.len() - k,
        {
            let b = block_text(k, &sorted[k]);
            push_text(&mut blocks, b.as_str());
            k += 1;
        }
        push_text(&mut body, blocks.as_str());
    }
    push_text(&mut out, body.as_str());
    let skipped = skipped_text(result);
    push_text(&mut out, skipped.as_str());
    let suppressed = suppressed_text(result);
    push_text(&mut out, suppressed.as_str());
    out
}

} // verus!

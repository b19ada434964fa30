//! Human/terminal report: one block per finding (most severe first), a
//! summary footer with counts by severity, then the skipped files and the
//! suppressed findings when there are any.

use vstd::prelude::*;

use crate::finding::Finding;
use crate::report::labels::{
    confidence_label, confidence_label_spec, location_suffix, location_suffix_spec,
    severity_label, severity_label_spec, skip_kind_label, skip_kind_label_spec,
    suppression_source, suppression_source_spec,
};
use crate::scan::{sorted_most_severe_first, with_severity, ScanResult};
use crate::severity::Severity;
use crate::skipped::SkippedFile;
use crate::suppression::SuppressedFinding;
use crate::text::{decimal, push_decimal, push_text};

verus! {

/// The block that describes one finding.
pub open spec fn finding_block(f: Finding) -> Seq<char> {
    "["@ + severity_label_spec(f.severity) + "] "@ + f.title@ + " ("@ + f.rule_id@ + ")\n"@
        + "  location:   "@ + f.file@ + location_suffix_spec(f.line, f.column) + "\n"@
        + "  confidence: "@ + confidence_label_spec(f.confidence) + "\n"@ + "  evidence:   "@
        + f.evidence@ + "\n"@ + "  why:        "@ + f.why_it_matters@ + "\n"@ + "  fix:        "@
        + f.remediation@ + "\n"@ + "\n"@
}

/// The blocks of the first `n` findings.
pub open spec fn finding_blocks(fs: Seq<Finding>, n: int) -> Seq<char>
    decreases n,
{
    if n <= 0 {
        seq![]
    } else {
        finding_blocks(fs, n - 1) + finding_block(fs[n - 1])
    }
}

/// A severity label with its colon, left-aligned in ten columns.
pub open spec fn padded_label(s: Severity) -> Seq<char> {
    match s {
        Severity::Critical => "CRITICAL: "@,
        Severity::High => "HIGH:     "@,
        Severity::Medium => "MEDIUM:   "@,
        Severity::Low => "LOW:      "@,
        Severity::Info => "INFO:     "@,
    }
}

fn padded_label_exec(s: Severity) -> (r: &'static str)
    ensures
        r@ == padded_label(s),
{
    match s {
        Severity::Critical => "CRITICAL: ",
        Severity::High => "HIGH:     ",
        Severity::Medium => "MEDIUM:   ",
        Severity::Low => "LOW:      ",
        Severity::Info => "INFO:     ",
    }
}

/// The summary line of one severity.
pub open spec fn severity_line(fs: Seq<Finding>, s: Severity) -> Seq<char> {
    "  "@ + padded_label(s) + " "@ + decimal(with_severity(fs, s).len()) + "\n"@
}

/// The summary footer.
pub open spec fn summary(r: ScanResult) -> Seq<char> {
    let fs = r.findings@;
    "Summary:\n"@ + "  files scanned: "@ + decimal(r.files_scanned as nat) + "\n"@ + "  rules run:     "@
        + decimal(r.rules_run@.len()) + "\n"@ + severity_line(fs, Severity::Critical) + severity_line(
        fs,
        Severity::High,
    ) + severity_line(fs, Severity::Medium) + severity_line(fs, Severity::Low) + severity_line(
        fs,
        Severity::Info,
    ) + "  total:     "@ + decimal(fs.len()) + "\n"@ + (if r.suppressed_count > 0 {
        "  suppressed: "@ + decimal(r.suppressed_count as nat) + "\n"@
    } else {
        seq![]
    }) + (if r.skipped@.len() > 0 {
        "  skipped:   "@ + decimal(r.skipped@.len()) + "\n"@
    } else {
        seq![]
    })
}

/// The warning line of one skipped file.
pub open spec fn skipped_line(s: SkippedFile) -> Seq<char> {
    "  "@ + s.path@ + " ["@ + skip_kind_label_spec(s.kind) + "]: "@ + s.reason@ + "\n"@
}

/// The warning lines of the first `n` skipped files.
pub open spec fn skipped_lines(ss: Seq<SkippedFile>, n: int) -> Seq<char>
    decreases n,
{
    if n <= 0 {
        seq![]
    } else {
        skipped_lines(ss, n - 1) + skipped_line(ss[n - 1])
    }
}

/// The line of one suppressed finding.
pub open spec fn suppressed_line(s: SuppressedFinding) -> Seq<char> {
    let f = s.finding;
    "  ["@ + severity_label_spec(f.severity) + "] "@ + f.title@ + " ("@ + f.rule_id@ + ")"@ + " "@
        + f.file@ + location_suffix_spec(f.line, f.column) + " — via "@ + suppression_source_spec(
        s.suppressed_by,
    ) + ": "@ + s.reason@ + "\n"@
}

/// The lines of the first `n` suppressed findings.
pub open spec fn suppressed_lines(ss: Seq<SuppressedFinding>, n: int) -> Seq<char>
    decreases n,
{
    if n <= 0 {
        seq![]
    } else {
        suppressed_lines(ss, n - 1) + suppressed_line(ss[n - 1])
    }
}

/// The whole terminal report.
pub open spec fn human_report(r: ScanResult) -> Seq<char> {
    let sorted = sorted_most_severe_first(r.findings@);
    (if sorted.len() == 0 {
        "No findings.\n\n"@
    } else {
        finding_blocks(sorted, sorted.len() as int)
    }) + summary(r) + (if r.skipped@.len() > 0 {
        "\nWarnings (skipped files):\n"@ + skipped_lines(r.skipped@, r.skipped@.len() as int)
    } else {
        seq![]
    }) + (if r.suppressed@.len() > 0 {
        "\nSuppressed findings:\n"@ + suppressed_lines(r.suppressed@, r.suppressed@.len() as int)
    } else {
        seq![]
    })
}

/// The block of one finding.
fn finding_block_text(f: &Finding) -> (r: String)
    ensures
        r@ == finding_block(*f),
{
    let mut out = String::new();
    push_text(&mut out, "[");
    assert(out@ =~= "["@);
    push_text(&mut out, severity_label(f.severity));
    push_text(&mut out, "] ");
    push_text(&mut out, f.title.as_str());
    push_text(&mut out, " (");
    push_text(&mut out, f.rule_id.as_str());
    push_text(&mut out, ")\n");
    push_text(&mut out, "  location:   ");
    push_text(&mut out, f.file.as_str());
    let loc = location_suffix(f.line, f.column);
    push_text(&mut out, loc.as_str());
    push_text(&mut out, "\n");
    push_text(&mut out, "  confidence: ");
    push_text(&mut out, confidence_label(f.confidence));
    push_text(&mut out, "\n");
    push_text(&mut out, "  evidence:   ");
    push_text(&mut out, f.evidence.as_str());
    push_text(&mut out, "\n");
    push_text(&mut out, "  why:        ");
    push_text(&mut out, f.why_it_matters.as_str());
    push_text(&mut out, "\n");
    push_text(&mut out, "  fix:        ");
    push_text(&mut out, f.remediation.as_str());
    push_text(&mut out, "\n");
    push_text(&mut out, "\n");
    out
}

/// The summary line of one severity.
fn severity_line_text(r: &ScanResult, s: Severity) -> (t: String)
    ensures
        t@ == severity_line(r.findings@, s),
{
    let mut out = String::new();
    push_text(&mut out, "  ");
    assert(out@ =~= "  "@);
    push_text(&mut out, padded_label_exec(s));
    push_text(&mut out, " ");
    push_decimal(&mut out, r.count_by_severity(s) as u64);
    push_text(&mut out, "\n");
    out
}

/// The summary footer.
fn summary_text(r: &ScanResult) -> (t: String)
    ensures
        t@ == summary(*r),
{
    let mut out = String::new();
    push_text(&mut out, "Summary:\n");
    assert(out@ =~= "Summary:\n"@);
    push_text(&mut out, "  files scanned: ");
    push_decimal(&mut out, r.files_scanned as u64);
    push_text(&mut out, "\n");
    push_text(&mut out, "  rules run:     ");
    push_decimal(&mut out, r.rules_run.len() as u64);
    push_text(&mut out, "\n");
    let l1 = severity_line_text(r, Severity::Critical);
    push_text(&mut out, l1.as_str());
    let l2 = severity_line_text(r, Severity::High);
    push_text(&mut out, l2.as_str());
    let l3 = severity_line_text(r, Severity::Medium);
    push_text(&mut out, l3.as_str());
    let l4 = severity_line_text(r, Severity::Low);
    push_text(&mut out, l4.as_str());
    let l5 = severity_line_text(r, Severity::Info);
    push_text(&mut out, l5.as_str());
    push_text(&mut out, "  total:     ");
    push_decimal(&mut out, r.total_findings() as u64);
    push_text(&mut out, "\n");
    let mut sup = String::new();
    if r.suppressed_count > 0 {
        push_text(&mut sup, "  suppressed: ");
        assert(sup@ =~= "  suppressed: "@);
        push_decimal(&mut sup, r.suppressed_count as u64);
        push_text(&mut sup, "\n");
    } else {
        assert(sup@ =~= Seq::<char>::empty());
    }
    push_text(&mut out, sup.as_str());
    let mut skip = String::new();
    if r.skipped.len() > 0 {
        push_text(&mut skip, "  skipped:   ");
        assert(skip@ =~= "  skipped:   "@);
        push_decimal(&mut skip, r.skipped.len() as u64);
        push_text(&mut skip, "\n");
    } else {
        assert(skip@ =~= Seq::<char>::empty());
    }
    push_text(&mut out, skip.as_str());
    out
}

/// Appends the warning lines of the skipped files.
fn push_skipped(out: &mut String, r: &ScanResult)
    ensures
        final(out)@ == old(out)@ + skipped_lines(r.skipped@, r.skipped@.len() as int),
{
    let ghost o = out@;
    let mut k: usize = 0;
    while k < r.skipped.len()
        invariant
            k <= r.skipped@.len(),
            out@ == o + skipped_lines(r.skipped@, k as int),
        decreases r.skipped@.len() - k,
    {
        let s = &r.skipped[k];
        let mut line = String::new();
        push_text(&mut line, "  ");
        assert(line@ =~= "  "@);
        push_text(&mut line, s.path.as_str());
        push_text(&mut line, " [");
        push_text(&mut line, skip_kind_label(s.kind));
        push_text(&mut line, "]: ");
        push_text(&mut line, s.reason.as_str());
        push_text(&mut line, "\n");
        push_text(out, line.as_str());
        assert(o + skipped_lines(r.skipped@, k + 1) =~= o + skipped_lines(r.skipped@, k as int) + skipped_line(r.skipped@[k as int]));
        k += 1;
    }
}

/// Appends the lines of the suppressed findings.
fn push_suppressed(out: &mut String, r: &ScanResult)
    ensures
        final(out)@ == old(out)@ + suppressed_lines(r.suppressed@, r.suppressed@.len() as int),
{
    let ghost o = out@;
    let mut k: usize = 0;
    while k < r.suppressed.len()
        invariant
            k <= r.suppressed@.len(),
            out@ == o + suppressed_lines(r.suppressed@, k as int),
        decreases r.suppressed@.len() - k,
    {
        let s = &r.suppressed[k];
        let f = &s.finding;
        let mut line = String::new();
        push_text(&mut line, "  [");
        assert(line@ =~= "  ["@);
        push_text(&mut line, severity_label(f.severity));
        push_text(&mut line, "] ");
        push_text(&mut line, f.title.as_str());
        push_text(&mut line, " (");
        push_text(&mut line, f.rule_id.as_str());
        push_text(&mut line, ")");
        push_text(&mut line, " ");
        push_text(&mut line, f.file.as_str());
        let loc = location_suffix(f.line, f.column);
        push_text(&mut line, loc.as_str());
        push_text(&mut line, " — via ");
        push_text(&mut line, suppression_source(s.suppressed_by));
        push_text(&mut line, ": ");
        push_text(&mut line, s.reason.as_str());
        push_text(&mut line, "\n");
        push_text(out, line.as_str());
        assert(o + suppressed_lines(r.suppressed@, k + 1) =~= o + suppressed_lines(r.suppressed@, k as int) + suppressed_line(r.suppressed@[k as int]));
        k += 1;
    }
}

/// Renders `result` for a terminal: one block per finding (most severe
/// first, or `No findings.`), the summary footer, then the skipped files
/// and the suppressed findings when there are any.
pub fn render(result: &ScanResult) -> (r: String)
    ensures
        r@ == human_report(*result),
{
    let mut out = String::new();
    let sorted = result.sorted_by_severity();
    if sorted.len() == 0 {
        push_text(&mut out, "No findings.\n\n");
    } else {
        let mut k: usize = 0;
        while k < sorted.len()
            invariant
                k <= sorted@.len(),
                out@ == finding_blocks(sorted@, k as int),
            decreases sorted@.len() - k,
        {
            let block = finding_block_text(&sorted[k]);
            push_text(&mut out, block.as_str());
            k += 1;
        }
    }
    if sorted.len() == 0 {
        assert(out@ =~= "No findings.\n\n"@);
    }
    let summary_part = summary_text(result);
    push_text(&mut out, summary_part.as_str());
    let mut skipped_part = String::new();
    if result.skipped.len() > 0 {
        push_text(&mut skipped_part, "\nWarnings (skipped files):\n");
        assert(skipped_part@ =~= "\nWarnings (skipped files):\n"@);
        push_skipped(&mut skipped_part, result);
    } else {
        assert(skipped_part@ =~= Seq::<char>::empty());
    }
    push_text(&mut out, skipped_part.as_str());
    let mut suppressed_part = String::new();
    if result.suppressed.len() > 0 {
        push_text(&mut suppressed_part, "\nSuppressed findings:\n");
        assert(suppressed_part@ =~= "\nSuppressed findings:\n"@);
        push_suppressed(&mut suppressed_part, result);
    } else {
        assert(suppressed_part@ =~= Seq::<char>::empty());
    }
    push_text(&mut out, suppressed_part.as_str());
    out
}

} // verus!

//! Labels and location text shared by the renderers.

use vstd::prelude::*;

use crate::severity::{Confidence, Severity};
use crate::skipped::SkipKind;
use crate::suppression::SuppressionKind;
use crate::text::{decimal, push_decimal, push_text};

verus! {

/// Upper-case severity label.
pub open spec fn severity_label_spec(s: Severity) -> Seq<char> {
    match s {
        Severity::Critical => "CRITICAL"@,
        Severity::High => "HIGH"@,
        Severity::Medium => "MEDIUM"@,
        Severity::Low => "LOW"@,
        Severity::Info => "INFO"@,
    }
}

/// Upper-case severity label.
pub fn severity_label(s: Severity) -> (r: &'static str)
    ensures
        r@ == severity_label_spec(s),
{
    match s {
        Severity::Critical => "CRITICAL",
        Severity::High => "HIGH",
        Severity::Medium => "MEDIUM",
        Severity::Low => "LOW",
        Severity::Info => "INFO",
    }
}

/// Lower-case confidence label.
pub open spec fn confidence_label_spec(c: Confidence) -> Seq<char> {
    match c {
        Confidence::High => "high"@,
        Confidence::Medium => "medium"@,
        Confidence::Low => "low"@,
    }
}

/// Lower-case confidence label.
pub fn confidence_label(c: Confidence) -> (r: &'static str)
    ensures
        r@ == confidence_label_spec(c),
{
    match c {
        Confidence::High => "high",
        Confidence::Medium => "medium",
        Confidence::Low => "low",
    }
}

/// Label of a skip kind.
pub open spec fn skip_kind_label_spec(k: SkipKind) -> Seq<char> {
    match k {
        SkipKind::NonUtf8 => "non-utf8"@,
        SkipKind::Unreadable => "unreadable"@,
        SkipKind::OtherIo => "io-error"@,
    }
}

/// Label of a skip kind.
pub fn skip_kind_label(k: SkipKind) -> (r: &'static str)
    ensures
        r@ == skip_kind_label_spec(k),
{
    match k {
        SkipKind::NonUtf8 => "non-utf8",
        SkipKind::Unreadable => "unreadable",
        SkipKind::OtherIo => "io-error",
    }
}

/// `:line:column`, `:line`, or nothing, as far as the location is known.
pub open spec fn location_suffix_spec(line: Option<u32>, column: Option<u32>) -> Seq<char> {
    match line {
        Some(l) => match column {
            Some(c) => seq![':'] + decimal(l as nat) + seq![':'] + decimal(c as nat),
            None => seq![':'] + decimal(l as nat),
        },
        None => seq![],
    }
}

/// Formats `:line:column` (or `:line`, or nothing when no line is known).
pub fn location_suffix(line: Option<u32>, column: Option<u32>) -> (r: String)
    ensures
        r@ == location_suffix_spec(line, column),
{
    let mut out = String::new();
    proof {
        reveal_strlit(":");
    }
    match line {
        Some(l) => {
            push_text(&mut out, ":");
            push_decimal(&mut out, l as u64);
            match column {
                Some(c) => {
                    push_text(&mut out, ":");
                    push_decimal(&mut out, c as u64);
                },
                None => {},
            }
        },
        None => {},
    }
    assert(out@ =~= location_suffix_spec(line, column));
    out
}

/// Where a suppression was declared, as the terminal report says it.
pub open spec fn suppression_source_spec(k: SuppressionKind) -> Seq<char> {
    match k {
        SuppressionKind::Inline => "inline directive"@,
        SuppressionKind::Config => "zkguard.toml"@,
    }
}

/// Where a suppression was declared, as the terminal report says it.
pub fn suppression_source(k: SuppressionKind) -> (r: &'static str)
    ensures
        r@ == suppression_source_spec(k),
{
    match k {
        SuppressionKind::Inline => "inline directive",
        SuppressionKind::Config => "zkguard.toml",
    }
}

} // verus!

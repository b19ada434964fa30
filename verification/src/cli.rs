//! The command-line interface's model: the commands and their arguments,
//! as the argument parser produces them.

use vstd::prelude::*;

use crate::severity::Severity;

verus! {

/// Output format of `scan` and `rules list`.
#[derive(Debug, Clone, Copy, PartialEq, Eq, Structural)]
pub enum OutputFormat {
    /// Human-readable terminal text (the default).
    Human,
    /// Machine-readable JSON.
    Json,
    /// GitHub-flavored Markdown.
    Markdown,
    /// SARIF 2.1.0 (`scan` only).
    Sarif,
}

/// Minimum severity that fails the scan.
#[derive(Debug, Clone, Copy, PartialEq, Eq, Structural)]
pub enum FailThreshold {
    Critical,
    High,
    Medium,
    Low,
    Info,
}

/// The severity a threshold names.
pub open spec fn threshold_severity(t: FailThreshold) -> Severity {
    match t {
        FailThreshold::Critical => Severity::Critical,
        FailThreshold::High => Severity::High,
        FailThreshold::Medium => Severity::Medium,
        FailThreshold::Low => Severity::Low,
        FailThreshold::Info => Severity::Info,
    }
}

impl FailThreshold {
    /// The severity this threshold names.
    pub fn to_severity(self) -> (s: Severity)
        ensures
            s == threshold_severity(self),
    {
        match self {
            FailThreshold::Critical => Severity::Critical,
            FailThreshold::High => Severity::High,
            FailThreshold::Medium => Severity::Medium,
            FailThreshold::Low => Severity::Low,
            FailThreshold::Info => Severity::Info,
        }
    }
}

/// Arguments of `scan`.
#[derive(Debug, Clone, PartialEq)]
pub struct ScanArgs {
    /// Path to a Noir project directory or a single `.nr` file.
    pub path: String,
    /// Output format.
    pub format: OutputFormat,
    /// Write the report to this file instead of stdout (not for `human`).
    pub output: Option<String>,
    /// Minimum severity that fails the scan; overrides the config file.
    pub fail_on: Option<FailThreshold>,
    /// Also list the suppressed findings.
    pub show_suppressed: bool,
}

/// Arguments of `rules list`.
#[derive(Debug, Clone, PartialEq)]
pub struct RulesListArgs {
    pub format: OutputFormat,
}

/// Arguments of `fixtures validate`.
#[derive(Debug, Clone, PartialEq)]
pub struct FixturesValidateArgs {
    /// Fixtures root; `fixtures/noir` when absent.
    pub path: Option<String>,
}

/// Subcommands of `rules`.
#[derive(Debug, Clone, PartialEq)]
pub enum RulesCommand {
    List(RulesListArgs),
}

/// Subcommands of `fixtures`.
#[derive(Debug, Clone, PartialEq)]
pub enum FixturesCommand {
    Validate(FixturesValidateArgs),
}

/// The top-level commands.
#[derive(Debug, Clone, PartialEq)]
pub enum Command {
    Scan(ScanArgs),
    Rules(RulesCommand),
    Fixtures(FixturesCommand),
}

/// A parsed command line.
#[derive(Debug, Clone, PartialEq)]
pub struct Cli {
    pub command: Command,
}

} // verus!

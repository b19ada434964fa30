//! Partial-scan warnings: files discovery located but could not read.

use vstd::prelude::*;

verus! {

/// Why a file was skipped during discovery.
#[derive(Debug, Clone, Copy, PartialEq, Eq, Structural)]
pub enum SkipKind {
    /// The file's bytes are not valid UTF-8.
    NonUtf8,
    /// The file could not be read (permission denied, not found).
    Unreadable,
    /// Any other I/O error while reading the file.
    OtherIo,
}

/// A source file that discovery located but could not read. A warning, not
/// a finding: it never affects the exit code.
#[derive(Debug, Clone, PartialEq)]
pub struct SkippedFile {
    /// Path to the file that was skipped.
    pub path: String,
    /// Human-readable reason (the underlying I/O error message).
    pub reason: String,
    /// Coarse classification of the skip.
    pub kind: SkipKind,
}

impl SkippedFile {
    /// A skipped-file record.
    pub fn new(path: &str, reason: &str, kind: SkipKind) -> (s: SkippedFile)
        ensures
            s.path@ == path@,
            s.reason@ == reason@,
            s.kind == kind,
    {
        SkippedFile { path: path.to_owned(), reason: reason.to_owned(), kind }
    }
}

} // verus!

//! `zkguard`: a best-effort static scanner for Noir zero-knowledge circuits.
//! The rules, the heuristics they share, suppression, and the reports are
//! verified; each module states what its functions compute.

pub mod cli;
pub mod commands;
pub mod config;
pub mod detection_laws;
pub mod discovery;
pub mod exit_code;
pub mod finding;
pub mod finding_laws;
pub mod heuristics;
pub mod laws;
pub mod patterns;
pub mod report;
pub mod rule;
pub mod rules;
pub mod scan;
pub mod severity;
pub mod shape_laws;
pub mod skipped;
pub mod suppression;
pub mod text;

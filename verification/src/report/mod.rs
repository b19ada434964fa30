//! Report renderers: human-readable terminal text, Markdown, and the SARIF
//! log's records. Pure formatting, deterministic for a given scan result.

pub mod human;
pub mod labels;
pub mod markdown;
pub mod sarif;

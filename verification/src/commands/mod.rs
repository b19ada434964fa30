//! The commands' decisions and outputs; reading the file system and
//! writing to the terminal or to files is left to the caller.

pub mod fixtures;
pub mod rules;
pub mod scan;

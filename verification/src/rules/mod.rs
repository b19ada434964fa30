//! The rules: each turns the heuristics' output into findings.

pub mod noir_public_001;
pub mod noir_constraint_001;
pub mod noir_range_001;
pub mod zk_hash_001;
pub mod zk_nullifier_001;
pub mod zk_test_001;
pub mod registry;

//! Helpers for deterministic testing: checksums and a seeded generator.

pub mod determinism;
pub mod fuzz;

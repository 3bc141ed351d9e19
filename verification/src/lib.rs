//! Pattern intelligence for regular expressions.
//!
//! Given a pattern string, this library decides which of two matching
//! engines (a linear-time automaton engine or a backtracking engine) must
//! execute it, extracts a canonical feature set, evaluates compatibility
//! across nine regex dialects, explains the pattern's structure, infers
//! candidate patterns from example strings, and measures or predicts
//! catastrophic backtracking risk.

pub mod benchmark;
pub mod cli;
pub mod engine;
pub mod explain;
pub mod from_examples;
pub mod portability;
pub mod redos;
pub mod replace;
pub mod rsyntax;
pub mod rx;
pub mod scan;
pub mod templates;
pub mod testrun;
pub mod textfmt;
pub mod types;
pub mod validate;

//! The command surface, as plain data.
//!
//! Argument parsing lives with the binary; these types carry a parsed
//! invocation into the library's handlers.  File arguments are paths as
//! strings.

use vstd::prelude::*;

verus! {

/// Output rendering choices.
#[derive(Debug, Clone, Copy, PartialEq, Eq, Structural)]
pub enum OutputFormat {
    /// Structured output.
    Json,
    /// Human-readable text.
    Text,
}

/// The commands and their arguments.
#[derive(Debug)]
pub enum Commands {
    /// Test a pattern against input.
    Test {
        pattern: String,
        input: Option<String>,
        file: Option<String>,
        max_matches: usize,
        engine: Option<String>,
        multiline: bool,
    },
    /// Test a replacement.
    Replace {
        pattern: String,
        replacement: String,
        input: Option<String>,
        file: Option<String>,
        max_preview: usize,
        multiline: bool,
    },
    /// Validate syntax and check portability.
    Validate { pattern: String, target_lang: Option<String> },
    /// Explain a pattern.
    Explain { pattern: String },
    /// Infer a pattern from examples.
    FromExamples { examples: Vec<String>, negative: Option<Vec<String>> },
    /// Apply a replacement to a file.
    Apply {
        pattern: String,
        replacement: String,
        file: String,
        dry_run: bool,
        no_backup: bool,
        max_preview: usize,
        multiline: bool,
    },
    /// Benchmark a pattern and detect backtracking.
    Benchmark {
        pattern: String,
        input: Option<String>,
        file: Option<String>,
        timeout_ms: u64,
        iterations: usize,
    },
}

/// A parsed invocation.
#[derive(Debug)]
pub struct Cli {
    /// The command to run, if any.
    pub command: Option<Commands>,
    /// Output format.
    pub format: OutputFormat,
    /// Serve the line-oriented tool protocol instead.
    pub mcp: bool,
}

} // verus!

//! The typed result records the analyses produce.
//!
//! These records are the library's contract with its callers; rendering
//! them into any text or wire format is the caller's business.  Times are
//! reported in integer nanoseconds and confidence scores in ten-thousandths,
//! so that every field is exact.

use vstd::prelude::*;

verus! {

use vstd::string::StringExecFns;

/// A single capture group within a match.
#[derive(Debug)]
pub struct Capture {
    /// Group number (1-indexed for capturing groups).
    pub group: usize,
    /// Named group name, if any.
    pub name: Option<String>,
    /// Captured text.
    pub text: String,
    /// Start byte position (0-indexed).
    pub start: usize,
    /// End byte position (exclusive).
    pub end: usize,
}

/// A single match result.
#[derive(Debug)]
pub struct Match {
    /// Full matched text.
    pub text: String,
    /// Start byte position (0-indexed).
    pub start: usize,
    /// End byte position (exclusive).
    pub end: usize,
    /// Capture groups (empty if no capturing groups).
    pub captures: Vec<Capture>,
}

/// Result of testing a pattern against input text.
#[derive(Debug)]
pub struct TestResult {
    /// The pattern that was tested.
    pub pattern: String,
    /// Which engine was used.
    pub engine: String,
    /// Length of input in bytes.
    pub input_length: usize,
    /// Whether any match was found.
    pub matched: bool,
    /// Number of matches found.
    pub match_count: usize,
    /// All matches with positions and captures.
    pub matches: Vec<Match>,
    /// Elapsed time in microseconds.
    pub elapsed_us: u64,
}

/// Result of a replacement over a string.
#[derive(Debug)]
pub struct ReplaceResult {
    /// The pattern that was used.
    pub pattern: String,
    /// The replacement string.
    pub replacement: String,
    /// Original input.
    pub original: String,
    /// Result after replacement.
    pub result: String,
    /// Number of replacements made.
    pub replacements_made: usize,
}

/// A single replacement preview line.
#[derive(Debug)]
pub struct ReplacePreview {
    /// Line number (1-indexed).
    pub line: usize,
    /// Original line content.
    pub before: String,
    /// Line content after replacement.
    pub after: String,
}

/// Result of previewing replacements over a file's content.
#[derive(Debug)]
pub struct ReplaceFileResult {
    /// The pattern that was used.
    pub pattern: String,
    /// The replacement string.
    pub replacement: String,
    /// Total number of replacements.
    pub replacements_made: usize,
    /// Preview of changes.
    pub preview: Vec<ReplacePreview>,
}

/// Compatibility of a pattern with nine regex dialects.
#[derive(Debug, PartialEq, Eq, Structural)]
pub struct Portability {
    /// Rust regex crate.
    pub rust_regex: bool,
    /// PCRE2.
    pub pcre2: bool,
    /// JavaScript RegExp.
    pub javascript: bool,
    /// Python re module.
    pub python_re: bool,
    /// Python regex module (third-party).
    pub python_regex: bool,
    /// Go regexp package.
    pub go_regexp: bool,
    /// Java java.util.regex.
    pub java: Option<bool>,
    /// .NET System.Text.RegularExpressions.
    pub dotnet: bool,
    /// Ruby (Oniguruma/Onigmo).
    pub ruby: bool,
}

/// Error information for validation.
#[derive(Debug)]
pub struct ValidationError {
    /// Error kind.
    pub kind: String,
    /// Position in the pattern where the error occurred.
    pub position: Option<usize>,
    /// Human-readable error message.
    pub message: String,
}

/// Result of validating a pattern.
#[derive(Debug)]
pub struct ValidateResult {
    /// Whether the pattern is valid.
    pub valid: bool,
    /// Error details (if invalid).
    pub error: Option<ValidationError>,
    /// Which engine is required.
    pub engine_required: Option<String>,
    /// Reason for the engine requirement.
    pub reason: Option<String>,
    /// Portability to other dialects.
    pub portability: Option<Portability>,
    /// Suggested fix (if invalid or incompatible).
    pub suggestion: Option<String>,
}

/// One token of a pattern explanation.
#[derive(Debug)]
pub struct ExplainPart {
    /// The token text.
    pub token: String,
    /// Token type (anchor, literal, repetition, ...).
    pub token_type: String,
    /// Human-readable description.
    pub desc: String,
    /// Quantifier, if any.
    pub quantifier: Option<String>,
    /// Capturing group number, if applicable.
    pub group: Option<usize>,
    /// Child parts, for groups and alternations.
    pub children: Option<Vec<ExplainPart>>,
}

/// Result of explaining a pattern.
#[derive(Debug)]
pub struct ExplainResult {
    /// The pattern that was explained.
    pub pattern: String,
    /// Breakdown of pattern parts.
    pub parts: Vec<ExplainPart>,
    /// High-level summary of what the pattern does.
    pub summary: String,
}

/// One inferred pattern candidate.
#[derive(Debug)]
pub struct InferredPattern {
    /// The inferred pattern.
    pub pattern: String,
    /// Confidence score in ten-thousandths: 0 means 0.0, 10000 means 1.0.
    pub confidence: u32,
    /// Human-readable description.
    pub desc: String,
}

/// Result of inferring patterns from examples.
#[derive(Debug)]
pub struct FromExamplesResult {
    /// Input examples.
    pub examples: Vec<String>,
    /// Negative examples (should not match).
    pub negative_examples: Option<Vec<String>>,
    /// Inferred pattern candidates.
    pub inferred: Vec<InferredPattern>,
}

/// Result of benchmarking a pattern.
#[derive(Debug)]
pub struct BenchmarkResult {
    /// The pattern that was benchmarked.
    pub pattern: String,
    /// Which engine was used.
    pub engine: String,
    /// Input size in bytes.
    pub input_size_bytes: usize,
    /// Number of iterations run.
    pub iterations: usize,
    /// Average iteration time in nanoseconds.
    pub avg_ns: u64,
    /// Median iteration time in nanoseconds.
    pub median_ns: u64,
    /// Throughput in bytes per second.
    pub throughput_bytes_per_sec: u64,
    /// Whether catastrophic backtracking was detected.
    pub catastrophic_backtracking: bool,
    /// Whether a timeout occurred.
    pub timeout: Option<bool>,
    /// Warning message, if any.
    pub warning: Option<String>,
    /// Suggestion for improvement, if any.
    pub suggestion: Option<String>,
}

/// Result of applying replacements to a file's content.
#[derive(Debug)]
pub struct ApplyResult {
    /// The pattern that was used.
    pub pattern: String,
    /// The replacement string.
    pub replacement: String,
    /// Path of the file that was modified.
    pub file_path: String,
    /// Path of the backup file, if one was made.
    pub backup_path: Option<String>,
    /// Total number of replacements made.
    pub replacements_made: usize,
    /// Whether changes were actually written (false for a dry run).
    pub applied: bool,
    /// Preview of changes.
    pub preview: Vec<ReplacePreview>,
}

/// A generic error response.
#[derive(Debug)]
pub struct ErrorResponse {
    /// Always true for errors.
    pub error: bool,
    /// Error code.
    pub code: String,
    /// Human-readable message.
    pub message: String,
    /// Position in the pattern, if applicable.
    pub position: Option<usize>,
    /// Context around the error.
    pub context: Option<String>,
    /// Suggested fix.
    pub suggestion: Option<String>,
    /// Link to relevant documentation.
    pub docs_hint: Option<String>,
}

impl ErrorResponse {
    /// Creates an error response with the given code and message.
    pub fn new(code: &str, message: &str) -> (r: ErrorResponse)
        ensures
            r.error,
            r.code@ == code@,
            r.message@ == message@,
            r.position is None,
            r.context is None,
            r.suggestion is None,
            r.docs_hint is None,
    {
        ErrorResponse {
            error: true,
            code: String::from_str(code),
            message: String::from_str(message),
            position: None,
            context: None,
            suggestion: None,
            docs_hint: None,
        }
    }

    /// Adds position information.
    pub fn with_position(self, position: usize) -> (r: ErrorResponse)
        ensures
            r == (ErrorResponse { position: Some(position), ..self }),
    {
        ErrorResponse { position: Some(position), ..self }
    }

    /// Adds context.
    pub fn with_context(self, context: &str) -> (r: ErrorResponse)
        ensures
            (r.context matches Some(c) && c@ == context@),
            r == (ErrorResponse { context: r.context, ..self }),
    {
        ErrorResponse { context: Some(String::from_str(context)), ..self }
    }

    /// Adds a suggestion.
    pub fn with_suggestion(self, suggestion: &str) -> (r: ErrorResponse)
        ensures
            (r.suggestion matches Some(s) && s@ == suggestion@),
            r == (ErrorResponse { suggestion: r.suggestion, ..self }),
    {
        ErrorResponse { suggestion: Some(String::from_str(suggestion)), ..self }
    }
}

} // verus!

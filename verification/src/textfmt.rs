//! Human-friendly text rendering of the result records.

use vstd::prelude::*;

verus! {

use vstd::string::StringExecFns;
use crate::scan::{chars_of, eq_str, push_dec};
use crate::types::{ApplyResult, BenchmarkResult, ExplainPart, ExplainResult, ReplaceResult,
    TestResult, ValidateResult};

/// Appends `n` two-space indent steps.
fn push_indent(out: &mut String, n: usize) {
    let mut i: usize = 0;
    while i < n
        decreases n - i,
    {
        out.append("  ");
        i += 1;
    }
}

/// Appends a nanosecond value as microseconds with one decimal digit.
fn push_us_from_ns(out: &mut String, ns: u64) {
    let tenths = (ns / 100) + (if ns % 100 >= 50 {
        1
    } else {
        0
    });
    push_dec(out, tenths / 10);
    out.append(".");
    push_dec(out, tenths % 10);
}

/// Appends a byte-per-second value as megabytes per second with two
/// decimal digits.
fn push_mb_s(out: &mut String, bps: u64) {
    let hundredths = (bps / 10000) + (if bps % 10000 >= 5000 {
        1
    } else {
        0
    });
    push_dec(out, hundredths / 100);
    out.append(".");
    let rem = hundredths % 100;
    if rem < 10 {
        out.append("0");
    }
    push_dec(out, rem);
}

/// Renders a test result: the pattern, the engine, each match with its
/// captures, and the tally.
pub fn format_test_result(result: &TestResult) -> (r: String) {
    let mut out = String::new();
    out.append("Pattern: ");
    out.append(result.pattern.as_str());
    out.append("\n");
    out.append("Engine:  ");
    out.append(result.engine.as_str());
    let ev = chars_of(result.engine.as_str());
    if eq_str(&ev, "regex") {
        out.append(" (linear time)");
    } else {
        out.append(" (backtracking)");
    }
    out.append("\n\n");
    if result.matched {
        let mut i: usize = 0;
        while i < result.matches.len()
            decreases result.matches@.len() - i,
        {
            let m = &result.matches[i];
            out.append("Match ");
            push_dec(&mut out, (i + 1) as u64);
            out.append(": \"");
            out.append(m.text.as_str());
            out.append("\" [");
            push_dec(&mut out, m.start as u64);
            out.append("..");
            push_dec(&mut out, m.end as u64);
            out.append("]\n");
            let mut j: usize = 0;
            while j < m.captures.len()
                decreases m.captures@.len() - j,
            {
                let cap = &m.captures[j];
                out.append("  Group ");
                push_dec(&mut out, cap.group as u64);
                match &cap.name {
                    Some(n) => {
                        out.append(" (");
                        out.append(n.as_str());
                        out.append(")");
                    },
                    None => {},
                }
                out.append(": \"");
                out.append(cap.text.as_str());
                out.append("\" [");
                push_dec(&mut out, cap.start as u64);
                out.append("..");
                push_dec(&mut out, cap.end as u64);
                out.append("]\n");
                j += 1;
            }
            i += 1;
        }
        out.append("\n");
        push_dec(&mut out, result.match_count as u64);
        if result.match_count == 1 {
            out.append(" match found in ");
        } else {
            out.append(" matches found in ");
        }
        push_dec(&mut out, result.elapsed_us);
        out.append("\u{3bc}s\n");
    } else {
        out.append("No matches found\n");
    }
    out
}

/// Renders a replacement result.
pub fn format_replace_result(result: &ReplaceResult) -> (r: String) {
    let mut out = String::new();
    out.append("Pattern:     ");
    out.append(result.pattern.as_str());
    out.append("\n");
    out.append("Replacement: ");
    out.append(result.replacement.as_str());
    out.append("\n\n");
    out.append("Original: ");
    out.append(result.original.as_str());
    out.append("\n");
    out.append("Result:   ");
    out.append(result.result.as_str());
    out.append("\n\n");
    push_dec(&mut out, result.replacements_made as u64);
    if result.replacements_made == 1 {
        out.append(" replacement made\n");
    } else {
        out.append(" replacements made\n");
    }
    out
}

/// Renders a validation result: validity, the engine it needs, and the
/// matrix, or the error and suggestion.
pub fn format_validate_result(result: &ValidateResult) -> (r: String) {
    let mut out = String::new();
    if result.valid {
        out.append("\u{2713} Pattern is valid\n");
        match &result.engine_required {
            Some(engine) => {
                out.append("\nEngine required: ");
                out.append(engine.as_str());
                out.append("\n");
            },
            None => {},
        }
        match &result.reason {
            Some(reason) => {
                out.append("Reason: ");
                out.append(reason.as_str());
                out.append("\n");
            },
            None => {},
        }
        match &result.portability {
            Some(p) => {
                out.append("\nPortability:\n");
                out.append("  Rust regex:    ");
                out.append(if p.rust_regex {
                    "\u{2713}"
                } else {
                    "\u{2717}"
                });
                out.append("\n  PCRE2:         ");
                out.append(if p.pcre2 {
                    "\u{2713}"
                } else {
                    "\u{2717}"
                });
                out.append("\n  JavaScript:    ");
                out.append(if p.javascript {
                    "\u{2713}"
                } else {
                    "\u{2717}"
                });
                out.append("\n  Python re:     ");
                out.append(if p.python_re {
                    "\u{2713}"
                } else {
                    "\u{2717}"
                });
                out.append("\n  Python regex:  ");
                out.append(if p.python_regex {
                    "\u{2713}"
                } else {
                    "\u{2717}"
                });
                out.append("\n  Go regexp:     ");
                out.append(if p.go_regexp {
                    "\u{2713}"
                } else {
                    "\u{2717}"
                });
                out.append("\n");
            },
            None => {},
        }
    } else {
        out.append("\u{2717} Pattern is invalid\n");
        match &result.error {
            Some(error) => {
                out.append("\nError: ");
                out.append(error.message.as_str());
                out.append("\n");
                match error.position {
                    Some(pos) => {
                        out.append("Position: ");
                        push_dec(&mut out, pos as u64);
                        out.append("\n");
                    },
                    None => {},
                }
            },
            None => {},
        }
        match &result.suggestion {
            Some(suggestion) => {
                out.append("\nSuggestion: ");
                out.append(suggestion.as_str());
                out.append("\n");
            },
            None => {},
        }
    }
    out
}

/// Renders one level of explanation parts, recursively indenting
/// children.
fn format_parts(parts: &Vec<ExplainPart>, indent: usize, out: &mut String)
    decreases parts@,
{
    broadcast use vstd::std_specs::vec::group_vec_axioms;

    let mut i: usize = 0;
    while i < parts.len()
        invariant
            i <= parts@.len(),
        decreases parts@.len() - i,
    {
        let part = &parts[i];
        push_indent(out, indent);
        out.append("\u{2022} ");
        out.append(part.token.as_str());
        out.append(" [");
        out.append(part.token_type.as_str());
        out.append("]");
        match &part.quantifier {
            Some(q) => {
                out.append(" (");
                out.append(q.as_str());
                out.append(")");
            },
            None => {},
        }
        match part.group {
            Some(g) => {
                out.append(" [group ");
                push_dec(out, g as u64);
                out.append("]");
            },
            None => {},
        }
        out.append("\n");
        push_indent(out, indent);
        out.append("  ");
        out.append(part.desc.as_str());
        out.append("\n");
        match &part.children {
            Some(children) => {
                proof {
                    let p = parts@[i as int];
                    assert(decreases_to!(parts@ => parts@[i as int]));
                    assert(decreases_to!(p => p.children));
                    assert(decreases_to!(p.children => p.children->Some_0));
                    assert(decreases_to!(p.children->Some_0 => p.children->Some_0@));
                }
                let deeper = if indent < 1000 {
                    indent + 1
                } else {
                    indent
                };
                format_parts(children, deeper, out);
            },
            None => {},
        }
        i += 1;
    }
}

/// Renders an explanation: the pattern, the part breakdown and the
/// summary.
pub fn format_explain_result(result: &ExplainResult) -> (r: String) {
    let mut out = String::new();
    out.append("Pattern: ");
    out.append(result.pattern.as_str());
    out.append("\n\n");
    out.append("Breakdown:\n");
    format_parts(&result.parts, 0, &mut out);
    out.append("\nSummary: ");
    out.append(result.summary.as_str());
    out.append("\n");
    out
}

/// Renders a benchmark result, with times in microseconds and throughput
/// in megabytes per second.
pub fn format_benchmark_result(result: &BenchmarkResult) -> (r: String) {
    let mut out = String::new();
    out.append("Pattern: ");
    out.append(result.pattern.as_str());
    out.append("\n");
    out.append("Engine:  ");
    out.append(result.engine.as_str());
    out.append("\n");
    out.append("Input:   ");
    push_dec(&mut out, result.input_size_bytes as u64);
    out.append(" bytes\n\n");
    out.append("Performance:\n");
    out.append("  Iterations: ");
    push_dec(&mut out, result.iterations as u64);
    out.append("\n  Average:    ");
    push_us_from_ns(&mut out, result.avg_ns);
    out.append("\u{3bc}s\n  Median:     ");
    push_us_from_ns(&mut out, result.median_ns);
    out.append("\u{3bc}s\n  Throughput: ");
    push_mb_s(&mut out, result.throughput_bytes_per_sec);
    out.append(" MB/s\n\n");
    if result.catastrophic_backtracking {
        out.append("\u{26a0} CATASTROPHIC BACKTRACKING DETECTED\n");
        match &result.warning {
            Some(warning) => {
                out.append("  ");
                out.append(warning.as_str());
                out.append("\n");
            },
            None => {},
        }
        match &result.suggestion {
            Some(suggestion) => {
                out.append("  Suggestion: ");
                out.append(suggestion.as_str());
                out.append("\n");
            },
            None => {},
        }
    } else {
        out.append("\u{2713} No backtracking issues detected\n");
    }
    out
}

/// Renders an apply result: mode, inputs, tally and preview.
pub fn format_apply_result(result: &ApplyResult) -> (r: String) {
    let mut out = String::new();
    out.append("[");
    out.append(if result.applied {
        "APPLIED"
    } else {
        "DRY-RUN"
    });
    out.append("]\n");
    out.append("Pattern:     ");
    out.append(result.pattern.as_str());
    out.append("\n");
    out.append("Replacement: ");
    out.append(result.replacement.as_str());
    out.append("\n");
    out.append("File:        ");
    out.append(result.file_path.as_str());
    out.append("\n");
    match &result.backup_path {
        Some(bak) => {
            out.append("Backup:      ");
            out.append(bak.as_str());
            out.append("\n");
        },
        None => {},
    }
    out.append("\n");
    push_dec(&mut out, result.replacements_made as u64);
    if result.replacements_made == 1 {
        out.append(" replacement\n");
    } else {
        out.append(" replacements\n");
    }
    if result.preview.len() > 0 {
        out.append("\nPreview:\n");
        let mut i: usize = 0;
        while i < result.preview.len()
            decreases result.preview@.len() - i,
        {
            let p = &result.preview[i];
            out.append("  L");
            push_dec(&mut out, p.line as u64);
            out.append(": ");
            out.append(p.before.as_str());
            out.append(" -> ");
            out.append(p.after.as_str());
            out.append("\n");
            i += 1;
        }
    }
    out
}

/// Renders an inference result: the examples and the ranked candidates
/// with their confidence percentages.
pub fn format_from_examples_result(result: &crate::types::FromExamplesResult) -> (r: String) {
    let mut out = String::new();
    out.append("Examples:\n");
    let mut i: usize = 0;
    while i < result.examples.len()
        decreases result.examples@.len() - i,
    {
        out.append("  \u{2022} ");
        out.append(result.examples[i].as_str());
        out.append("\n");
        i += 1;
    }
    match &result.negative_examples {
        Some(neg) => {
            out.append("\nNegative examples (should NOT match):\n");
            let mut j: usize = 0;
            while j < neg.len()
                decreases neg@.len() - j,
            {
                out.append("  \u{2022} ");
                out.append(neg[j].as_str());
                out.append("\n");
                j += 1;
            }
        },
        None => {},
    }
    out.append("\nInferred patterns:\n");
    let mut k: usize = 0;
    while k < result.inferred.len()
        decreases result.inferred@.len() - k,
    {
        let inf = &result.inferred[k];
        out.append("\n");
        push_dec(&mut out, (k + 1) as u64);
        out.append(". ");
        out.append(inf.pattern.as_str());
        out.append(" (confidence: ");
        // ten-thousandths to whole percent, rounded
        let percent = ((inf.confidence as u64) + 50) / 100;
        push_dec(&mut out, percent);
        out.append("%)\n   ");
        out.append(inf.desc.as_str());
        out.append("\n");
        k += 1;
    }
    out
}

} // verus!

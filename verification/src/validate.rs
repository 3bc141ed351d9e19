//! Pattern validation and per-dialect compatibility checking.
//!
//! A pattern is valid when either engine compiles it.  Diagnostics for
//! invalid patterns come from the structural parser where it can say
//! something precise, and from the automaton engine's message otherwise.

use vstd::prelude::*;

verus! {

use vstd::string::StringExecFns;
use crate::engine::{FancyFeatures, select_engine};
use crate::portability::check_portability;
use crate::rsyntax::{AstErrKind, AstErrorInfo, parse_pattern};
use crate::rx::{fancy_valid, rx_valid, try_fancy_regex, try_regex_crate};
use crate::scan::{ascii_lower, chars_of, contains_str, eq_str, has_sub, spec_ascii_lower};
use crate::types::{Portability, ValidateResult, ValidationError};

/// The reported kind of each structural parse error.
pub open spec fn err_kind_text(k: AstErrKind) -> Seq<char> {
    match k {
        AstErrKind::GroupUnclosed => "unclosed_group"@,
        AstErrKind::GroupUnopened => "unopened_group"@,
        AstErrKind::EscapeUnexpectedEof => "incomplete_escape"@,
        AstErrKind::ClassUnclosed => "unclosed_class"@,
        AstErrKind::RepetitionMissing => "missing_repetition_target"@,
        AstErrKind::RepetitionCountUnclosed => "unclosed_repetition"@,
        AstErrKind::Other => "syntax_error"@,
    }
}

/// The suggestion offered for each error kind; for the generic kind, one
/// is offered only when the message names a missing repetition target.
pub open spec fn spec_fix_for_error(kind: Seq<char>, message: Seq<char>) -> Option<Seq<char>> {
    if kind == "unclosed_group"@ {
        Some("Add closing ')' to complete the group"@)
    } else if kind == "unopened_group"@ {
        Some("Remove extra ')' or add opening '('"@)
    } else if kind == "incomplete_escape"@ {
        Some("Complete the escape sequence or escape the backslash with '\\\\'"@)
    } else if kind == "unclosed_class"@ {
        Some("Add closing ']' to complete the character class"@)
    } else if kind == "missing_repetition_target"@ {
        Some("Add a character or group before the quantifier"@)
    } else if kind == "unclosed_repetition"@ {
        Some("Add closing '}' to complete the repetition"@)
    } else if has_sub(message, "nothing to repeat"@) {
        Some("Add a character or group before the quantifier"@)
    } else {
        None
    }
}

/// Suggests a fix for a structural parse error, from its kind and
/// message.
pub fn suggest_fix_for_error(kind: &str, message: &str) -> (r: Option<String>)
    ensures
        r is Some <==> spec_fix_for_error(kind@, message@) is Some,
        r matches Some(s) ==> spec_fix_for_error(kind@, message@) == Some(s@),
{
    let k = chars_of(kind);
    if eq_str(&k, "unclosed_group") {
        return Some(String::from_str("Add closing ')' to complete the group"));
    }
    if eq_str(&k, "unopened_group") {
        return Some(String::from_str("Remove extra ')' or add opening '('"));
    }
    if eq_str(&k, "incomplete_escape") {
        return Some(
            String::from_str("Complete the escape sequence or escape the backslash with '\\\\'"),
        );
    }
    if eq_str(&k, "unclosed_class") {
        return Some(String::from_str("Add closing ']' to complete the character class"));
    }
    if eq_str(&k, "missing_repetition_target") {
        return Some(String::from_str("Add a character or group before the quantifier"));
    }
    if eq_str(&k, "unclosed_repetition") {
        return Some(String::from_str("Add closing '}' to complete the repetition"));
    }
    let m = chars_of(message);
    if contains_str(&m, "nothing to repeat") {
        return Some(String::from_str("Add a character or group before the quantifier"));
    }
    None
}

/// Turns a structural parse failure into a validation error with a
/// suggestion.
pub fn parse_ast_error(err: &AstErrorInfo) -> (r: (ValidationError, Option<String>))
    ensures
        r.0.kind@ == err_kind_text(err.kind),
        r.0.position == Some(err.offset),
        r.0.message@ == err.message@,
        r.1 is Some <==> spec_fix_for_error(err_kind_text(err.kind), err.message@) is Some,
        (r.1 matches Some(s) ==> spec_fix_for_error(err_kind_text(err.kind), err.message@)
            == Some(s@)),
{
    let kind = match err.kind {
        AstErrKind::GroupUnclosed => String::from_str("unclosed_group"),
        AstErrKind::GroupUnopened => String::from_str("unopened_group"),
        AstErrKind::EscapeUnexpectedEof => String::from_str("incomplete_escape"),
        AstErrKind::ClassUnclosed => String::from_str("unclosed_class"),
        AstErrKind::RepetitionMissing => String::from_str("missing_repetition_target"),
        AstErrKind::RepetitionCountUnclosed => String::from_str("unclosed_repetition"),
        AstErrKind::Other => String::from_str("syntax_error"),
    };
    let suggestion = suggest_fix_for_error(kind.as_str(), err.message.as_str());
    let error = ValidationError {
        kind,
        position: Some(err.offset),
        message: err.message.clone(),
    };
    (error, suggestion)
}

/// The reported kind inferred from a matching engine's message.
pub open spec fn spec_engine_err_kind(message: Seq<char>) -> Seq<char> {
    if has_sub(message, "unclosed"@) {
        "unclosed_group"@
    } else if has_sub(message, "invalid"@) {
        "invalid_syntax"@
    } else if has_sub(message, "quantifier"@) {
        "invalid_quantifier"@
    } else {
        "syntax_error"@
    }
}

/// Turns a matching engine's message into a validation error.
pub fn parse_regex_error(message: String) -> (r: ValidationError)
    ensures
        r.kind@ == spec_engine_err_kind(message@),
        r.position is None,
        r.message@ == message@,
{
    let m = chars_of(message.as_str());
    let kind = if contains_str(&m, "unclosed") {
        String::from_str("unclosed_group")
    } else if contains_str(&m, "invalid") {
        String::from_str("invalid_syntax")
    } else if contains_str(&m, "quantifier") {
        String::from_str("invalid_quantifier")
    } else {
        String::from_str("syntax_error")
    };
    ValidationError { kind, position: None, message }
}

/// Validates a pattern: valid exactly when either engine compiles it.
///
/// A pattern only the backtracking engine accepts reports that engine and
/// the features that force it; a pattern neither accepts reports an error
/// derived preferentially from the structural parser.
pub fn validate_pattern(pattern: &str) -> (r: ValidateResult)
    ensures
        r.valid <==> (rx_valid(pattern@) || fancy_valid(pattern@)),
        rx_valid(pattern@) ==> {
            &&& (r.engine_required matches Some(e) && e@ == "regex"@)
            &&& r.reason is None
            &&& r.error is None
            &&& r.portability is Some
            &&& r.suggestion is None
        },
        !rx_valid(pattern@) && fancy_valid(pattern@) ==> {
            &&& (r.engine_required matches Some(e) && e@ == "fancy-regex"@)
            &&& (r.reason is Some <==> FancyFeatures::of(pattern@).spec_needs_fancy())
            &&& r.error is None
            &&& r.portability is Some
            &&& r.suggestion is None
        },
        !rx_valid(pattern@) && !fancy_valid(pattern@) ==> {
            &&& r.error is Some
            &&& r.engine_required is None
            &&& r.reason is None
            &&& r.portability is None
        },
{
    let ast_result = parse_pattern(pattern);
    let regex_result = try_regex_crate(pattern);
    let fancy_result = try_fancy_regex(pattern);

    match (&regex_result, &fancy_result) {
        (Ok(_), _) => {
            let portability = check_portability(pattern);
            ValidateResult {
                valid: true,
                error: None,
                engine_required: Some(String::from_str("regex")),
                reason: None,
                portability: Some(portability),
                suggestion: None,
            }
        },
        (Err(_), Ok(_)) => {
            let (_, features) = select_engine(pattern);
            let portability = check_portability(pattern);
            ValidateResult {
                valid: true,
                error: None,
                engine_required: Some(String::from_str("fancy-regex")),
                reason: features.reason(),
                portability: Some(portability),
                suggestion: None,
            }
        },
        (Err(regex_err), Err(_)) => {
            let (error, suggestion) = match &ast_result {
                Err(ast_err) => parse_ast_error(ast_err),
                Ok(_) => (parse_regex_error(regex_err.to_string()), None),
            };
            ValidateResult {
                valid: false,
                error: Some(error),
                engine_required: None,
                reason: None,
                portability: None,
                suggestion,
            }
        },
    }
}

/// Whether the lowercased target name maps to a compatible dialect of the
/// matrix; unrecognized names are treated as compatible.
pub open spec fn lang_compatible(p: Portability, lt: Seq<char>) -> bool {
    if lt == "rust"@ || lt == "rust_regex"@ {
        p.rust_regex
    } else if lt == "pcre"@ || lt == "pcre2"@ {
        p.pcre2
    } else if lt == "js"@ || lt == "javascript"@ {
        p.javascript
    } else if lt == "python"@ || lt == "python_re"@ {
        p.python_re
    } else if lt == "python_regex"@ || lt == "regex"@ {
        p.python_regex
    } else if lt == "go"@ || lt == "go_regexp"@ || lt == "golang"@ {
        p.go_regexp
    } else if lt == "java"@ {
        match p.java {
            Some(b) => b,
            None => true,
        }
    } else if lt == "dotnet"@ || lt == "csharp"@ || lt == "c#"@ || lt == ".net"@ {
        p.dotnet
    } else if lt == "ruby"@ || lt == "rb"@ {
        p.ruby
    } else {
        true
    }
}

/// Evaluates the matrix field for a lowercased target name.
fn lang_compatible_exec(p: &Portability, lt: &Vec<char>) -> (r: bool)
    ensures
        r == lang_compatible(*p, lt@),
{
    if eq_str(lt, "rust") || eq_str(lt, "rust_regex") {
        p.rust_regex
    } else if eq_str(lt, "pcre") || eq_str(lt, "pcre2") {
        p.pcre2
    } else if eq_str(lt, "js") || eq_str(lt, "javascript") {
        p.javascript
    } else if eq_str(lt, "python") || eq_str(lt, "python_re") {
        p.python_re
    } else if eq_str(lt, "python_regex") || eq_str(lt, "regex") {
        p.python_regex
    } else if eq_str(lt, "go") || eq_str(lt, "go_regexp") || eq_str(lt, "golang") {
        p.go_regexp
    } else if eq_str(lt, "java") {
        match p.java {
            Some(b) => b,
            None => true,
        }
    } else if eq_str(lt, "dotnet") || eq_str(lt, "csharp") || eq_str(lt, "c#") || eq_str(
        lt,
        ".net",
    ) {
        p.dotnet
    } else if eq_str(lt, "ruby") || eq_str(lt, "rb") {
        p.ruby
    } else {
        true
    }
}

/// The alternative suggested when a pattern is incompatible with the
/// target.
pub open spec fn spec_compat_alternative(p: Seq<char>, lt: Seq<char>) -> Option<Seq<char>> {
    if lt == "rust"@ || lt == "rust_regex"@ || lt == "go"@ || lt == "go_regexp"@ || lt
        == "golang"@ {
        if has_sub(p, "(?="@) || has_sub(p, "(?!"@) {
            Some(
                "Consider removing lookahead assertions - Rust regex and Go regexp don't support them"@,
            )
        } else if has_sub(p, "(?<="@) || has_sub(p, "(?<!"@) {
            Some(
                "Consider removing lookbehind assertions - Rust regex and Go regexp don't support them"@,
            )
        } else if has_sub(p, "\\1"@) || has_sub(p, "\\2"@) {
            Some(
                "Consider removing backreferences - Rust regex and Go regexp don't support them"@,
            )
        } else {
            None
        }
    } else if lt == "javascript"@ || lt == "js"@ {
        if has_sub(p, "(?<="@) && has_sub(p, "+"@) {
            Some(
                "JavaScript doesn't support variable-length lookbehind - use fixed-length pattern"@,
            )
        } else {
            None
        }
    } else {
        None
    }
}

/// Suggests a compatible alternative for a target dialect.
pub fn suggest_compatible_alternative(pattern: &str, target: &str) -> (r: Option<String>)
    ensures
        r is Some <==> spec_compat_alternative(
            pattern@,
            spec_ascii_lower(target@),
        ) is Some,
        r matches Some(s) ==> spec_compat_alternative(pattern@, spec_ascii_lower(target@))
            == Some(s@),
{
    let lt = ascii_lower(&chars_of(target));
    let p = chars_of(pattern);
    if eq_str(&lt, "rust") || eq_str(&lt, "rust_regex") || eq_str(&lt, "go") || eq_str(
        &lt,
        "go_regexp",
    ) || eq_str(&lt, "golang") {
        if contains_str(&p, "(?=") || contains_str(&p, "(?!") {
            Some(
                String::from_str(
                    "Consider removing lookahead assertions - Rust regex and Go regexp don't support them",
                ),
            )
        } else if contains_str(&p, "(?<=") || contains_str(&p, "(?<!") {
            Some(
                String::from_str(
                    "Consider removing lookbehind assertions - Rust regex and Go regexp don't support them",
                ),
            )
        } else if contains_str(&p, "\\1") || contains_str(&p, "\\2") {
            Some(
                String::from_str(
                    "Consider removing backreferences - Rust regex and Go regexp don't support them",
                ),
            )
        } else {
            None
        }
    } else if eq_str(&lt, "javascript") || eq_str(&lt, "js") {
        if contains_str(&p, "(?<=") && contains_str(&p, "+") {
            Some(
                String::from_str(
                    "JavaScript doesn't support variable-length lookbehind - use fixed-length pattern",
                ),
            )
        } else {
            None
        }
    } else {
        None
    }
}

/// Validates a pattern for a specific target dialect.
///
/// A valid pattern that the target's matrix entry marks incompatible gets
/// an `incompatible` error and, where one applies, a suggestion.
pub fn validate_for_language(pattern: &str, target: &str) -> (r: ValidateResult)
    ensures
        r.valid <==> (rx_valid(pattern@) || fancy_valid(pattern@)),
        r.valid ==> (r.error is Some <==> (r.portability matches Some(p) && !lang_compatible(
            p,
            spec_ascii_lower(target@),
        ))),
        r.valid ==> (r.error matches Some(e) ==> e.kind@ == "incompatible"@ && e.message@
            == "Pattern is not compatible with "@ + target@),
        r.valid ==> (r.error is Some ==> (r.suggestion is Some <==> spec_compat_alternative(
            pattern@,
            spec_ascii_lower(target@),
        ) is Some)),
        r.valid ==> (r.error is None ==> r.suggestion is None),
        rx_valid(pattern@) ==> {
            &&& (r.engine_required matches Some(e) && e@ == "regex"@)
            &&& r.reason is None
            &&& r.portability is Some
        },
        !rx_valid(pattern@) && fancy_valid(pattern@) ==> {
            &&& (r.engine_required matches Some(e) && e@ == "fancy-regex"@)
            &&& (r.reason is Some <==> FancyFeatures::of(pattern@).spec_needs_fancy())
            &&& r.portability is Some
        },
        !rx_valid(pattern@) && !fancy_valid(pattern@) ==> {
            &&& r.error is Some
            &&& r.engine_required is None
            &&& r.reason is None
            &&& r.portability is None
        },
{
    let result = validate_pattern(pattern);
    if result.valid {
        let portability = match &result.portability {
            Some(p) => p,
            None => {
                return result;
            },
        };
        let lt = ascii_lower(&chars_of(target));
        let compatible = lang_compatible_exec(portability, &lt);
        if !compatible {
            let mut message = String::from_str("Pattern is not compatible with ");
            message.append(target);
            let error = ValidationError {
                kind: String::from_str("incompatible"),
                position: None,
                message,
            };
            let suggestion = suggest_compatible_alternative(pattern, target);
            return ValidateResult {
                valid: result.valid,
                error: Some(error),
                engine_required: result.engine_required,
                reason: result.reason,
                portability: result.portability,
                suggestion,
            };
        }
        return result;
    }
    result
}

} // verus!

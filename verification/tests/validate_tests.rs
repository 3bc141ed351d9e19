//! Validation.

use re_x::validate::{validate_for_language, validate_pattern};

#[test]
fn test_valid_simple_pattern() {
    let result = validate_pattern(r"\d+");
    assert!(result.valid);
    assert_eq!(result.engine_required, Some("regex".to_string()));
}

#[test]
fn test_valid_fancy_pattern() {
    let result = validate_pattern(r"foo(?=bar)");
    assert!(result.valid);
    assert_eq!(result.engine_required, Some("fancy-regex".to_string()));
}

#[test]
fn test_invalid_pattern() {
    let result = validate_pattern(r"(\d+");
    assert!(!result.valid);
    assert!(result.error.is_some());
}

#[test]
fn validate_test_portability_check() {
    let result = validate_pattern(r"(\w+)\s+\1");
    assert!(result.valid);
    let portability = result.portability.unwrap();
    assert!(!portability.rust_regex);
    assert!(portability.javascript);
}

#[test]
fn test_invalid_pattern_error_kind() {
    let result = validate_pattern(r"(\d+");
    let error = result.error.unwrap();
    assert_eq!(error.kind, "unclosed_group");
    assert_eq!(error.position, Some(0));
    assert_eq!(
        result.suggestion,
        Some("Add closing ')' to complete the group".to_string())
    );
}

#[test]
fn test_validate_for_language_incompatible() {
    let result = validate_for_language(r"foo(?=bar)", "rust");
    assert!(result.valid);
    let error = result.error.unwrap();
    assert_eq!(error.kind, "incompatible");
    assert_eq!(error.message, "Pattern is not compatible with rust");
    assert_eq!(
        result.suggestion,
        Some(
            "Consider removing lookahead assertions - Rust regex and Go regexp don't support them"
                .to_string()
        )
    );
}

#[test]
fn test_validate_for_language_compatible() {
    let result = validate_for_language(r"foo(?=bar)", "JavaScript");
    assert!(result.valid);
    assert!(result.error.is_none());
}

#[test]
fn test_validate_for_unknown_language() {
    let result = validate_for_language(r"foo(?=bar)", "cobol");
    assert!(result.valid);
    assert!(result.error.is_none());
}

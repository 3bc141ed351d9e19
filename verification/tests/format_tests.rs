//! Text rendering and the error-response builder.

use re_x::types::ErrorResponse;

#[test]
fn test_error_response_builder() {
    let e = ErrorResponse::new("INVALID_PATTERN", "bad pattern")
        .with_position(3)
        .with_context("near here")
        .with_suggestion("close the group");
    assert!(e.error);
    assert_eq!(e.code, "INVALID_PATTERN");
    assert_eq!(e.message, "bad pattern");
    assert_eq!(e.position, Some(3));
    assert_eq!(e.context.as_deref(), Some("near here"));
    assert_eq!(e.suggestion.as_deref(), Some("close the group"));
    assert!(e.docs_hint.is_none());
}

#[test]
fn test_format_test_result_text() {
    let result = re_x::testrun::test_string(
        r"\d+",
        "hello 123",
        &re_x::testrun::TestOptions::default(),
    )
    .unwrap();
    let text = re_x::textfmt::format_test_result(&result);
    assert!(text.contains("Pattern: \\d+"));
    assert!(text.contains("Match 1: \"123\""));
    assert!(text.contains("1 match found"));
}

#[test]
fn test_format_validate_result_text() {
    let result = re_x::validate::validate_pattern(r"\d+");
    let text = re_x::textfmt::format_validate_result(&result);
    assert!(text.contains("Pattern is valid"));
    assert!(text.contains("Engine required: regex"));
    assert!(text.contains("Portability:"));
}

#[test]
fn test_format_explain_result_text() {
    let result = re_x::explain::explain_pattern(r"\d+").unwrap();
    let text = re_x::textfmt::format_explain_result(&result);
    assert!(text.contains("Pattern: \\d+"));
    assert!(text.contains("Breakdown:"));
    assert!(text.contains("Summary:"));
}

#[test]
fn test_format_replace_result_text() {
    let result = re_x::replace::replace_string(r"\d+", "N", "a1").unwrap();
    let text = re_x::textfmt::format_replace_result(&result);
    assert!(text.contains("Pattern:     \\d+"));
    assert!(text.contains("1 replacement made"));
}

#[test]
fn test_format_from_examples_result_text() {
    let examples = vec!["2024-01-15".to_string(), "2025-12-31".to_string()];
    let result = re_x::from_examples::infer_patterns(&examples, None).unwrap();
    let text = re_x::textfmt::format_from_examples_result(&result);
    assert!(text.contains("Examples:"));
    assert!(text.contains("Inferred patterns:"));
    assert!(text.contains("confidence:"));
}

#[test]
fn test_format_benchmark_result_text() {
    let result = re_x::benchmark::benchmark_pattern(
        r"\d+",
        "x1",
        &re_x::benchmark::BenchmarkOptions { iterations: 3, timeout_ms: 5000 },
    )
    .unwrap();
    let text = re_x::textfmt::format_benchmark_result(&result);
    assert!(text.contains("Performance:"));
    assert!(text.contains("Iterations:"));
    assert!(text.contains("MB/s"));
}

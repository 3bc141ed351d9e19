//! Portability matrix and feature extraction.

use re_x::portability::{check_portability, PatternFeatures};

#[test]
fn test_simple_pattern_portable() {
    let portability = check_portability(r"\d+");
    assert!(portability.rust_regex);
    assert!(portability.javascript);
    assert!(portability.go_regexp);
    assert!(portability.dotnet);
    assert!(portability.ruby);
}

#[test]
fn test_lookahead_not_portable_to_rust() {
    let portability = check_portability(r"foo(?=bar)");
    assert!(!portability.rust_regex);
    assert!(portability.javascript);
    assert!(!portability.go_regexp);
    assert!(portability.dotnet);
    assert!(portability.ruby);
}

#[test]
fn test_backreference_limited_portability() {
    let portability = check_portability(r"(\w+)\s+\1");
    assert!(!portability.rust_regex);
    assert!(portability.javascript);
    assert!(!portability.go_regexp);
    assert!(portability.dotnet);
    assert!(portability.ruby);
}

#[test]
fn test_dotnet_blocks_possessive() {
    let portability = check_portability(r"(?=.)a++");
    assert!(!portability.dotnet);
    assert!(portability.ruby);
}

#[test]
fn test_ruby_blocks_conditional() {
    let portability = check_portability(r"(?(1)a|b)");
    assert!(!portability.ruby);
    assert!(portability.dotnet);
}

#[test]
fn test_escaped_paren_not_detected_as_lookahead() {
    let features = PatternFeatures::analyze(r"\(?=foo");
    assert!(!features.lookahead);
}

#[test]
fn test_char_class_not_detected_as_lookahead() {
    let features = PatternFeatures::analyze(r"[(?=]");
    assert!(!features.lookahead);
}

#[test]
fn test_actual_lookahead_detected() {
    let features = PatternFeatures::analyze(r"foo(?=bar)");
    assert!(features.lookahead);
}

#[test]
fn test_unicode_class_detected_from_ast() {
    let features = PatternFeatures::analyze(r"\p{L}+");
    assert!(features.unicode_classes);
}

#[test]
fn test_named_capture_detected_from_ast() {
    let features = PatternFeatures::analyze(r"(?P<name>\w+)");
    assert!(features.named_capture);
}

#[test]
fn test_inline_flags_detected_from_ast() {
    let features = PatternFeatures::analyze(r"(?i)hello");
    assert!(features.inline_flags);
}

#[test]
fn test_word_boundary_detected_from_ast() {
    let features = PatternFeatures::analyze(r"\bword\b");
    assert!(features.word_boundary);
}

#[test]
fn test_parsed_patterns_have_no_backtracking_flags() {
    for p in [r"\d+", r"^a(b|c)*$", r"[a-z]{3,5}", r"(?i)x\p{L}"] {
        let f = PatternFeatures::analyze(p);
        assert!(!f.lookahead);
        assert!(!f.lookbehind);
        assert!(!f.variable_lookbehind);
        assert!(!f.backreference);
        assert!(!f.atomic_group);
        assert!(!f.possessive);
        assert!(!f.conditional);
        assert!(!f.recursion);
        assert!(!f.subroutine);
    }
}

#[test]
fn test_fallback_detects_special_markers() {
    let f = PatternFeatures::analyze(r"(?=x)(?(1)a|b)(?R)\g<name>(?i)y");
    assert!(f.lookahead);
    assert!(f.conditional);
    assert!(f.recursion);
    assert!(f.subroutine);
    assert!(f.inline_flags);
}

#[test]
fn test_variable_lookbehind_detected() {
    let f = PatternFeatures::analyze(r"(?<=a+)b");
    assert!(f.lookbehind);
    assert!(f.variable_lookbehind);
    let g = PatternFeatures::analyze(r"(?<=ab)c");
    assert!(g.lookbehind);
    assert!(!g.variable_lookbehind);
}

#[test]
fn test_explain_compatibility_lists_issues() {
    let issues = re_x::portability::explain_compatibility(r"foo(?=bar)");
    assert!(issues
        .iter()
        .any(|i| i.contains("Lookahead assertions")));
    assert!(re_x::portability::explain_compatibility(r"abc").is_empty());
}

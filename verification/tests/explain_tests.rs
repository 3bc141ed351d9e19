//! Pattern explanation.

use re_x::explain::explain_pattern;

#[test]
fn test_explain_simple() {
    let result = explain_pattern(r"\d+").unwrap();
    assert!(!result.parts.is_empty());
}

#[test]
fn test_explain_with_groups() {
    let result = explain_pattern(r"(\d+)-(\d+)").unwrap();
    assert!(!result.parts.is_empty());
}

#[test]
fn test_explain_alternation() {
    let result = explain_pattern(r"cat|dog").unwrap();
    assert!(result.parts.iter().any(|p| p.token_type == "alternation"));
}

#[test]
fn test_explain_fancy_lists_features() {
    let result = explain_pattern(r"foo(?=bar)").unwrap();
    assert!(result.parts.iter().any(|p| p.token_type == "lookahead"));
    assert!(result.summary.contains("advanced features"));
    assert!(result.summary.contains("lookahead assertion"));
}

#[test]
fn test_explain_recognizes_format() {
    let result = explain_pattern(r"\d{1,3}\.\d{1,3}\.\d{1,3}\.\d{1,3}").unwrap();
    assert_eq!(result.summary, "Matches an IPv4 address");
}

#[test]
fn test_explain_merges_single_quantifier() {
    let result = explain_pattern(r"\d+").unwrap();
    assert_eq!(result.parts.len(), 1);
    assert_eq!(result.parts[0].token, r"\d+");
    assert_eq!(result.parts[0].quantifier.as_deref(), Some("+"));
}

#[test]
fn test_explain_children_only_on_parent_kinds() {
    fn check(parts: &[re_x::types::ExplainPart]) {
        for p in parts {
            if let Some(children) = &p.children {
                assert!(matches!(
                    p.token_type.as_str(),
                    "capturing_group" | "non_capturing_group" | "named_group" | "alternation"
                        | "branch" | "repetition"
                ));
                check(children);
            }
        }
    }
    for pat in [r"(a|bc)+x", r"(?P<n>\d+)-\w*", r"(ab){2,3}"] {
        let result = explain_pattern(pat).unwrap();
        check(&result.parts);
    }
}

#[test]
fn test_explain_invalid_pattern_fails() {
    let err = explain_pattern(r"(\d+").unwrap_err();
    assert!(err.starts_with("Failed to parse pattern: "));
}

#[test]
fn test_explain_empty_pattern_summary() {
    let result = explain_pattern("").unwrap();
    assert!(result.parts.is_empty());
    assert_eq!(result.summary, "Empty pattern");
}

#[test]
fn test_explain_structural_summary() {
    let result = explain_pattern(r"x\d+").unwrap();
    assert_eq!(result.summary, "Matches 'x', then one or more digits");
    let anchored = explain_pattern(r"^x$").unwrap();
    assert!(anchored.summary.ends_with(" (full line match)"));
}

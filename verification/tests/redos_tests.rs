//! Static backtracking-risk detection.

use re_x::redos::{detect_redos_vulnerability, generate_redos_input, quick_vulnerability_check,
    suggest_fix};

#[test]
fn test_detect_redos() {
    assert!(detect_redos_vulnerability(r"(a+)+").is_some());
    assert!(detect_redos_vulnerability(r"(.*)*").is_some());
    assert!(detect_redos_vulnerability(r"\d+").is_none());
}

#[test]
fn test_generate_evil_input() {
    let input = generate_redos_input(r"(a+)+");
    assert!(input.contains('a'));
    assert!(input.len() > 10);
}

#[test]
fn test_generate_fallback_input() {
    let input = generate_redos_input(r"[a-z]{2,4}");
    assert_eq!(input, format!("{}X", "a".repeat(30)));
}

#[test]
fn test_detect_general_nested_quantifier() {
    let d = detect_redos_vulnerability(r"(x+y*)+z").unwrap();
    assert_eq!(d, "Nested quantifiers detected");
    assert!(quick_vulnerability_check(r"(x+y*)+z"));
    assert!(!quick_vulnerability_check(r"(xy)z+"));
}

#[test]
fn test_suggest_fix_for_families() {
    assert_eq!(
        suggest_fix(r"(a+)+$"),
        Some("Use atomic group or possessive quantifier: (?>a+)+".to_string())
    );
    assert_eq!(
        suggest_fix(r"(.+)+@"),
        Some("Use atomic group: (?>.+)+ or limit repetition".to_string())
    );
    assert!(suggest_fix(r"\d+").is_none());
}

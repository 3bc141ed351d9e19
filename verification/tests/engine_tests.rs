//! Engine selection and compilation.

use re_x::engine::{select_engine, CompiledRegex, EngineError, EngineType};

#[test]
fn test_simple_pattern_uses_regex() {
    let (engine, _) = select_engine(r"\d+");
    assert_eq!(engine, EngineType::Regex);
}

#[test]
fn test_lookahead_uses_fancy() {
    let (engine, features) = select_engine(r"foo(?=bar)");
    assert_eq!(engine, EngineType::FancyRegex);
    assert!(features.lookahead);
}

#[test]
fn test_lookbehind_uses_fancy() {
    let (engine, features) = select_engine(r"(?<=foo)bar");
    assert_eq!(engine, EngineType::FancyRegex);
    assert!(features.lookbehind);
}

#[test]
fn test_backreference_uses_fancy() {
    let (engine, features) = select_engine(r"(\w+)\s+\1");
    assert_eq!(engine, EngineType::FancyRegex);
    assert!(features.backreference);
}

#[test]
fn test_compile_simple() {
    let (re, engine) = CompiledRegex::new(r"\d+").unwrap();
    assert_eq!(engine, EngineType::Regex);
    assert!(re.is_match("123").unwrap());
}

#[test]
fn test_compile_fancy() {
    let (re, engine) = CompiledRegex::new(r"foo(?=bar)").unwrap();
    assert_eq!(engine, EngineType::FancyRegex);
    assert!(re.is_match("foobar").unwrap());
    assert!(!re.is_match("foobaz").unwrap());
}

#[test]
fn test_engine_reason_names_features() {
    let (_, features) = select_engine(r"(?=a)(?<=b)\1(?>c)");
    let reason = features.reason().unwrap();
    assert_eq!(
        reason,
        "Pattern uses lookahead assertion, lookbehind assertion, backreference, atomic group"
    );
}

#[test]
fn test_compile_rejects_invalid_pattern() {
    assert!(CompiledRegex::new(r"(\d+").is_err());
    assert!(CompiledRegex::with_engine(r"(\d+", EngineType::Regex).is_err());
}

#[test]
fn test_find_reports_span() {
    let (re, _) = CompiledRegex::new(r"\d+").unwrap();
    assert_eq!(re.find("ab 123 cd").unwrap(), Some((3, 6)));
    assert_eq!(re.find("no digits").unwrap(), None);
}

#[test]
fn test_has_capturing_groups() {
    assert!(re_x::engine::has_capturing_groups(r"(\d+)"));
    assert!(!re_x::engine::has_capturing_groups(r"\d+"));
    assert!(!re_x::engine::has_capturing_groups(r"(?:\d+)"));
}

#[test]
fn test_double_rejection_is_invalid_pattern() {
    let e = match CompiledRegex::new(r"(\d+") {
        Err(e) => e,
        Ok(_) => panic!("pattern should not compile"),
    };
    assert!(matches!(e, EngineError::InvalidPattern(_)));
    let e2 = match CompiledRegex::new(r"(?=a)(") {
        Err(e) => e,
        Ok(_) => panic!("pattern should not compile"),
    };
    assert!(matches!(e2, EngineError::InvalidPattern(_)));
    assert!(e.message().starts_with("Invalid regex pattern: "));
}

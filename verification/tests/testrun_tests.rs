//! Testing patterns against input.

use re_x::engine::EngineType;
use re_x::testrun::{test_string, TestOptions};

#[test]
fn test_test_simple_match() {
    let result = test_string(r"\d+", "hello 123 world 456", &TestOptions::default()).unwrap();
    assert!(result.matched);
    assert_eq!(result.match_count, 2);
    assert_eq!(result.matches[0].text, "123");
    assert_eq!(result.matches[1].text, "456");
}

#[test]
fn test_test_no_match() {
    let result = test_string(r"\d+", "hello world", &TestOptions::default()).unwrap();
    assert!(!result.matched);
    assert_eq!(result.match_count, 0);
}

#[test]
fn test_with_captures() {
    let result = test_string(r"(\d+)-(\d+)", "123-456", &TestOptions::default()).unwrap();
    assert!(result.matched);
    assert_eq!(result.match_count, 1);
    assert_eq!(result.matches[0].captures.len(), 2);
    assert_eq!(result.matches[0].captures[0].text, "123");
    assert_eq!(result.matches[0].captures[1].text, "456");
}

#[test]
fn test_max_matches() {
    let options = TestOptions { max_matches: Some(1), engine: None, multiline: false };
    let result = test_string(r"\d+", "1 2 3 4 5", &options).unwrap();
    assert_eq!(result.match_count, 1);
}

#[test]
fn test_multiline_dot_matches_newline() {
    let options = TestOptions { max_matches: Some(100), engine: None, multiline: true };
    let result = test_string(r"hello.world", "hello\nworld", &options).unwrap();
    assert!(result.matched);
    assert_eq!(result.matches[0].text, "hello\nworld");
}

#[test]
fn test_multiline_anchors() {
    let options = TestOptions { max_matches: Some(100), engine: None, multiline: true };
    let result = test_string(r"^\w+$", "foo\nbar\nbaz", &options).unwrap();
    assert_eq!(result.match_count, 3);
}

#[test]
fn test_match_positions_are_byte_spans() {
    let result = test_string(r"\d+", "ab 123", &TestOptions::default()).unwrap();
    assert_eq!(result.matches[0].start, 3);
    assert_eq!(result.matches[0].end, 6);
    assert_eq!(result.input_length, 6);
}

#[test]
fn test_fancy_engine_collects_matches() {
    let result = test_string(r"\d+(?= end)", "1 end 2 end 3", &TestOptions::default()).unwrap();
    assert_eq!(result.match_count, 2);
    assert_eq!(result.matches[0].text, "1");
    assert_eq!(result.matches[1].text, "2");
}

#[test]
fn test_named_capture_reported() {
    let result = test_string(r"(?P<num>\d+)", "x42", &TestOptions::default()).unwrap();
    assert_eq!(result.matches[0].captures[0].name.as_deref(), Some("num"));
    assert_eq!(result.matches[0].captures[0].text, "42");
}

#[test]
fn test_forced_engine_is_reported() {
    let options = TestOptions {
        max_matches: Some(10),
        engine: Some(EngineType::FancyRegex),
        multiline: false,
    };
    let result = test_string(r"\d+", "a 1 b 2", &options).unwrap();
    assert_eq!(result.engine, "fancy-regex");
    assert_eq!(result.match_count, 2);
}

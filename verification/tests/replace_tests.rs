//! Replacement.

use re_x::replace::{replace_string, replace_with_captures};

#[test]
fn test_simple_replace() {
    let result = replace_string(r"\d+", "NUM", "a1b2c3").unwrap();
    assert_eq!(result.result, "aNUMbNUMcNUM");
    assert_eq!(result.replacements_made, 3);
}

#[test]
fn test_replace_with_captures() {
    let result = replace_with_captures(r"(\d+)-(\d+)", "$2-$1", "Call 123-456", false).unwrap();
    assert_eq!(result.result, "Call 456-123");
}

#[test]
fn test_replace_multiline() {
    let result = replace_with_captures(r"hello.world", "REPLACED", "hello\nworld", true).unwrap();
    assert_eq!(result.result, "REPLACED");
    assert_eq!(result.replacements_made, 1);
}

#[test]
fn test_no_match_replace() {
    let result = replace_string(r"\d+", "NUM", "hello").unwrap();
    assert_eq!(result.result, "hello");
    assert_eq!(result.replacements_made, 0);
}

#[test]
fn test_fancy_replace_expands_captures() {
    let result =
        replace_with_captures(r"(\d+)(?=USD|EUR)", "[$1]", "price: 100USD and 200EUR", false)
            .unwrap();
    assert_eq!(result.result, "price: [100]USD and [200]EUR");
    assert_eq!(result.replacements_made, 2);
}

#[test]
fn test_replace_named_group_reference() {
    let result =
        replace_with_captures(r"(?P<word>[a-z]+)(?=!)", "<${word}>", "hey! ho", false).unwrap();
    assert_eq!(result.result, "<hey>! ho");
}

#[test]
fn test_replace_dollar_escape() {
    let result = replace_with_captures(r"\d+(?=#)", "$$", "a1# b2", false).unwrap();
    assert_eq!(result.result, "a$# b2");
}

#[test]
fn test_replace_file_preview_counts_lines() {
    let content = "http://example.com\nhttps://safe.com\nhttp://test.org\n";
    let result =
        re_x::replace::replace_file_preview("http://", "https://", content, Some(20), false)
            .unwrap();
    assert_eq!(result.replacements_made, 2);
    assert_eq!(result.preview.len(), 2);
    assert_eq!(result.preview[0].line, 1);
    assert_eq!(result.preview[0].after, "https://example.com");
}

#[test]
fn test_apply_content_rewrites() {
    let content = "hello world\nfoo bar\n";
    let (new_content, count, preview) =
        re_x::replace::apply_content(r"\bworld\b", "earth", content, Some(20), false).unwrap();
    assert_eq!(new_content, "hello earth\nfoo bar\n");
    assert_eq!(count, 1);
    assert_eq!(preview.len(), 1);
}

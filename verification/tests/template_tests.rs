//! Format template detection and semantic recognition.

use re_x::templates::{detect_known_formats, detects, recognize_pattern, FormatKind};

#[test]
fn test_detect_ipv4() {
    let examples = vec![
        "192.168.1.1".to_string(),
        "10.0.0.1".to_string(),
        "255.255.255.0".to_string(),
    ];
    let results = detect_known_formats(&examples);
    assert!(results.iter().any(|(_, d)| d == "IPv4 address"));
}

#[test]
fn test_detect_uuid() {
    let examples = vec![
        "550e8400-e29b-41d4-a716-446655440000".to_string(),
        "123e4567-e89b-12d3-a456-426614174000".to_string(),
    ];
    let results = detect_known_formats(&examples);
    assert!(results.iter().any(|(_, d)| d == "UUID"));
}

#[test]
fn test_detect_url() {
    let examples = vec![
        "https://example.com/path".to_string(),
        "http://test.org".to_string(),
    ];
    let results = detect_known_formats(&examples);
    assert!(results.iter().any(|(_, d)| d == "URL (HTTP/HTTPS)"));
}

#[test]
fn test_detect_semver() {
    let examples = vec![
        "1.0.0".to_string(),
        "2.3.4".to_string(),
        "10.20.30".to_string(),
    ];
    let results = detect_known_formats(&examples);
    assert!(results.iter().any(|(_, d)| d == "Semantic version (SemVer)"));
}

#[test]
fn test_detect_hex_color() {
    let examples = vec![
        "#ff0000".to_string(),
        "#00ff00".to_string(),
        "#abc".to_string(),
    ];
    let results = detect_known_formats(&examples);
    assert!(results.iter().any(|(_, d)| d == "Hex color code"));
}

#[test]
fn test_detect_mac_address() {
    let examples = vec![
        "AA:BB:CC:DD:EE:FF".to_string(),
        "00:11:22:33:44:55".to_string(),
    ];
    let results = detect_known_formats(&examples);
    assert!(results.iter().any(|(_, d)| d == "MAC address"));
}

#[test]
fn test_detect_email() {
    let examples = vec!["user@example.com".to_string(), "admin@test.org".to_string()];
    let results = detect_known_formats(&examples);
    assert!(results.iter().any(|(_, d)| d == "Email address"));
}

#[test]
fn test_detect_iso_date() {
    let examples = vec!["2024-01-15".to_string(), "2025-12-31".to_string()];
    let results = detect_known_formats(&examples);
    assert!(results.iter().any(|(_, d)| d.contains("ISO 8601")));
}

#[test]
fn test_recognize_ipv4_pattern() {
    let desc = recognize_pattern(r"\d{1,3}\.\d{1,3}\.\d{1,3}\.\d{1,3}");
    assert_eq!(desc, Some("IPv4 address".to_string()));
}

#[test]
fn test_recognize_email_pattern() {
    let desc = recognize_pattern(r"[a-zA-Z0-9._%+-]+@[a-zA-Z0-9.-]+\.[a-zA-Z]{2,}");
    assert_eq!(desc, Some("Email address".to_string()));
}

#[test]
fn test_recognize_unknown_pattern() {
    let desc = recognize_pattern(r"\w+");
    assert_eq!(desc, None);
}

#[test]
fn test_detectors_reject_near_misses() {
    let as_chars = |s: &str| s.chars().collect::<Vec<char>>();
    assert!(!detects(FormatKind::IsoDate, &as_chars("2024-1-15")));
    assert!(!detects(FormatKind::Ipv4, &as_chars("1.2.3")));
    assert!(!detects(FormatKind::Ipv4, &as_chars("1.2.3.4567")));
    assert!(!detects(FormatKind::Email, &as_chars("user example.com")));
    assert!(!detects(FormatKind::Email, &as_chars("user@@example.com")));
    assert!(detects(FormatKind::Semver, &as_chars("1.2.3-beta.1+build.5")));
    assert!(!detects(FormatKind::Semver, &as_chars("1.2")));
    assert!(detects(FormatKind::Phone, &as_chars("+1 (555) 123-4567")));
    assert!(!detects(FormatKind::Phone, &as_chars("12")));
}

//! Example-driven inference.

use re_x::from_examples::infer_patterns;

#[test]
fn test_infer_date_pattern() {
    let examples = vec![
        "2024-01-15".to_string(),
        "2025-12-31".to_string(),
        "2023-06-01".to_string(),
    ];
    let result = infer_patterns(&examples, None).unwrap();
    assert!(!result.inferred.is_empty());
    assert!(result
        .inferred
        .iter()
        .any(|p| p.pattern.contains(r"\d{4}-\d{2}-\d{2}")));
}

#[test]
fn test_infer_with_negatives() {
    let examples = vec!["abc123".to_string(), "def456".to_string()];
    let negatives = vec!["123abc".to_string(), "xyz".to_string()];
    let result = infer_patterns(&examples, Some(&negatives)).unwrap();
    assert!(!result.inferred.is_empty());
}

#[test]
fn test_infer_email() {
    let examples = vec![
        "user@example.com".to_string(),
        "admin@test.org".to_string(),
        "info@company.co.uk".to_string(),
    ];
    let result = infer_patterns(&examples, None).unwrap();
    assert!(result.inferred.iter().any(|p| p.desc.contains("Email")));
}

#[test]
fn test_infer_ipv4() {
    let examples = vec![
        "192.168.1.1".to_string(),
        "10.0.0.1".to_string(),
        "255.255.255.0".to_string(),
    ];
    let result = infer_patterns(&examples, None).unwrap();
    assert!(result.inferred.iter().any(|p| p.desc.contains("IPv4")));
}

#[test]
fn test_infer_uuid() {
    let examples = vec![
        "550e8400-e29b-41d4-a716-446655440000".to_string(),
        "123e4567-e89b-12d3-a456-426614174000".to_string(),
    ];
    let result = infer_patterns(&examples, None).unwrap();
    assert!(result.inferred.iter().any(|p| p.desc.contains("UUID")));
}

#[test]
fn test_infer_semver() {
    let examples = vec![
        "1.0.0".to_string(),
        "2.3.4".to_string(),
        "10.20.30".to_string(),
    ];
    let result = infer_patterns(&examples, None).unwrap();
    assert!(result
        .inferred
        .iter()
        .any(|p| p.desc.contains("Semantic version")));
}

#[test]
fn test_infer_hex_color() {
    let examples = vec![
        "#ff0000".to_string(),
        "#00ff00".to_string(),
        "#0000ff".to_string(),
    ];
    let result = infer_patterns(&examples, None).unwrap();
    assert!(result.inferred.iter().any(|p| p.desc.contains("Hex color")));
}

#[test]
fn test_infer_url() {
    let examples = vec![
        "https://example.com".to_string(),
        "http://test.org/path".to_string(),
    ];
    let result = infer_patterns(&examples, None).unwrap();
    assert!(result.inferred.iter().any(|p| p.desc.contains("URL")));
}

#[test]
fn test_ipv4_ranks_above_phone() {
    let examples = vec![
        "192.168.1.1".to_string(),
        "10.0.0.1".to_string(),
        "255.255.255.0".to_string(),
    ];
    let result = infer_patterns(&examples, None).unwrap();
    let ipv4_pos = result.inferred.iter().position(|p| p.desc.contains("IPv4"));
    let phone_pos = result.inferred.iter().position(|p| p.desc.contains("Phone"));
    assert!(ipv4_pos.is_some(), "IPv4 pattern should be present");
    if let (Some(ip), Some(ph)) = (ipv4_pos, phone_pos) {
        assert!(ip < ph, "IPv4 (pos {}) should rank above Phone (pos {})", ip, ph);
    }
}

#[test]
fn test_infer_single_example_fails() {
    let examples = vec!["x".to_string()];
    assert!(infer_patterns(&examples, None).is_err());
    let none: Vec<String> = Vec::new();
    assert!(infer_patterns(&none, None).is_err());
}

#[test]
fn test_template_confidence_capped() {
    let examples = vec!["2024-01-15".to_string(), "2025-12-31".to_string()];
    let result = infer_patterns(&examples, None).unwrap();
    let date = result
        .inferred
        .iter()
        .find(|p| p.pattern.contains(r"\d{4}-\d{2}-\d{2}"))
        .unwrap();
    assert!(date.confidence <= 9500);
}

#[test]
fn test_inferred_list_is_ranked_and_bounded() {
    let examples = vec![
        "192.168.1.1".to_string(),
        "10.0.0.1".to_string(),
        "255.255.255.0".to_string(),
    ];
    let result = infer_patterns(&examples, None).unwrap();
    let inf = &result.inferred;
    assert!(inf.len() <= 5);
    for w in inf.windows(2) {
        assert!(w[0].confidence >= w[1].confidence);
    }
    for i in 0..inf.len() {
        assert!(inf[i].confidence <= 10000);
        for j in (i + 1)..inf.len() {
            assert_ne!(inf[i].pattern, inf[j].pattern);
        }
    }
}

#[test]
fn test_exact_literal_has_full_confidence() {
    let examples = vec!["a.b".to_string(), "a.b".to_string()];
    let result = infer_patterns(&examples, None).unwrap();
    let top = &result.inferred[0];
    assert_eq!(top.pattern, r"a\.b");
    assert_eq!(top.confidence, 10000);
    assert_eq!(top.desc, "Exact match (all examples identical)");
}

#[test]
fn test_anchored_prefix_suffix() {
    let examples = vec!["log_alpha.txt".to_string(), "log_beta.txt".to_string()];
    let result = infer_patterns(&examples, None).unwrap();
    assert!(result
        .inferred
        .iter()
        .any(|p| p.desc.contains("Common prefix") && p.pattern.starts_with("log_")));
}
